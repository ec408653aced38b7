//! Concrete implementations of known Sigma protocols.

pub mod schnorr_dlog;

pub use schnorr_dlog::{ProverState, SchnorrDLOG, SchnorrInstance};
