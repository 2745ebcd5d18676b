//! Threshold custody for post-quantum key material.
//!
//! The crate splits a secret key into `n` shares such that any `t` of them
//! reconstruct it exactly, binds every share to one key identity and version,
//! and manages the key lifecycle: generation, time-gated rotation, and the
//! metadata checks that keep shares of different keys or versions apart.

pub mod adapters;
pub mod dsa;
pub mod error;
pub mod gf256;
pub mod hash;
pub mod kem;
pub mod manager;
pub mod sharing;
pub mod types;
