//! Step-by-step SHA-3 (Keccak-f[1600]) with verified transformation steps.

pub mod reference;
pub mod sha3_impl;
pub mod visualizer;

pub use sha3_impl::{KeccakState, Sha3Variant};

use vstd::prelude::*;

verus! {

/// Library version.
pub const VERSION: &'static str = "0.1.0";

/// Library description.
pub const DESCRIPTION: &'static str = "A real-time 3D visualization of the SHA-3 (Keccak) cryptographic hash function with step-by-step execution";

} // verus!
