//! Precompiled contracts.

pub mod bn254;
pub mod laws;
