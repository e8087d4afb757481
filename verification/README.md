# sha3-visualizer

Step-by-step SHA-3 (Keccak-f[1600]) for visualization, with the state machine
and all transformation steps verified.

- `src/sha3_impl/permutation.rs`: theta, rho, pi, chi, iota over the 25 lanes,
  each proved equal to its mathematical definition; Keccak-f as 24 rounds.
- `src/sha3_impl/sponge.rs`: SHA-3 padding, absorbing blocks, squeezing
  little-endian bytes, lowercase hex.
- `src/sha3_impl/model.rs`: the abstract state machine and its laws (every
  step brings completion one step closer; from a fresh state the lanes end
  as the sponge over the whole padded input).
- `src/sha3_impl/mod.rs`: `KeccakState` and `Sha3Variant`.
- `src/reference.rs`: the comparison with the `sha3` crate.
- `src/visualizer.rs`: key handling, animation and completion bookkeeping.
- `app/`: the Bevy front end (window, cubes, text, timer, printing).
