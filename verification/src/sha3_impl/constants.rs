//! Fixed constants of Keccak-f[1600]: the round constants of the iota step
//! and the rotation offsets of the rho step.

use vstd::prelude::*;

verus! {

/// Round constants XORed into lane (0, 0) by the iota step, one per round.
pub const ROUND_CONSTANTS: [u64; 24] = [
    0x0000000000000001u64,
    0x0000000000008082u64,
    0x800000000000808Au64,
    0x8000000080008000u64,
    0x000000000000808Bu64,
    0x0000000080000001u64,
    0x8000000080008081u64,
    0x8000000000008009u64,
    0x000000000000008Au64,
    0x0000000000000088u64,
    0x0000000080008009u64,
    0x000000008000000Au64,
    0x000000008000808Bu64,
    0x800000000000008Bu64,
    0x8000000000008089u64,
    0x8000000000008003u64,
    0x8000000000008002u64,
    0x8000000000000080u64,
    0x000000000000800Au64,
    0x800000008000000Au64,
    0x8000000080008081u64,
    0x8000000000008080u64,
    0x0000000080000001u64,
    0x8000000080008008u64,
];

/// Rotation offsets of the rho step, indexed `RHO_OFFSETS[x][z]` for the lane
/// at grid position (x, z).
pub const RHO_OFFSETS: [[usize; 5]; 5] = [
    [0usize, 36usize, 3usize, 41usize, 18usize],
    [1usize, 44usize, 10usize, 45usize, 2usize],
    [62usize, 6usize, 43usize, 15usize, 61usize],
    [28usize, 55usize, 25usize, 21usize, 56usize],
    [27usize, 20usize, 39usize, 8usize, 14usize],
];

} // verus!
