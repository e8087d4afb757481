//! SHA-3 / Keccak with step-by-step execution.
//!
//! The 1600-bit state is 25 lanes of 64 bits, lane (x, z) at index x + 5 * z.
//! The first step absorbs the padded input; every later step applies one of
//! the five step mappings (theta, rho, pi, chi, iota) of the current round.
//! After 24 rounds the next block of the padded input, if any, is absorbed;
//! after the last block's permutation the state is complete and its first
//! bytes are the digest.

pub mod constants;
pub mod model;
pub mod permutation;
pub mod sponge;

use vstd::prelude::*;
use vstd::string::StringSliceAdditionalSpecFns;

use self::model::{KeccakModel, StateOp, lemma_config_bounds, lemma_ops_keep_config, valid_config};
use self::permutation::{apply_chi, apply_iota, apply_pi, apply_rho, apply_theta};
use self::sponge::{
    absorb_block,
    block,
    hex,
    is_lower_hex_digit,
    squeeze,
    squeeze_bytes,
    to_hex,
    zero_lanes,
};

verus! {

/// The supported SHA-3 variants.
#[derive(Debug, Clone, Copy, PartialEq, Eq, Structural)]
pub enum Sha3Variant {
    /// SHA3-224: 224-bit output, 1152-bit rate, 448-bit capacity.
    Sha3_224,
    /// SHA3-256: 256-bit output, 1088-bit rate, 512-bit capacity.
    Sha3_256,
    /// SHA3-384: 384-bit output, 832-bit rate, 768-bit capacity.
    Sha3_384,
    /// SHA3-512: 512-bit output, 576-bit rate, 1024-bit capacity.
    Sha3_512,
}

/// Rate of a variant, in bytes.
pub open spec fn variant_rate(v: Sha3Variant) -> int {
    match v {
        Sha3Variant::Sha3_224 => 144,
        Sha3Variant::Sha3_256 => 136,
        Sha3Variant::Sha3_384 => 104,
        Sha3Variant::Sha3_512 => 72,
    }
}

/// Capacity of a variant, in bits.
pub open spec fn variant_capacity(v: Sha3Variant) -> int {
    match v {
        Sha3Variant::Sha3_224 => 448,
        Sha3Variant::Sha3_256 => 512,
        Sha3Variant::Sha3_384 => 768,
        Sha3Variant::Sha3_512 => 1024,
    }
}

/// Digest length of a variant, in bytes.
pub open spec fn variant_output_length(v: Sha3Variant) -> int {
    match v {
        Sha3Variant::Sha3_224 => 28,
        Sha3Variant::Sha3_256 => 32,
        Sha3Variant::Sha3_384 => 48,
        Sha3Variant::Sha3_512 => 64,
    }
}

/// The variant named by a (capacity in bits, digest length in bytes) pair;
/// SHA3-256 for any other pair.
pub open spec fn variant_of(capacity: int, output_length: int) -> Sha3Variant {
    if capacity == 448 && output_length == 28 {
        Sha3Variant::Sha3_224
    } else if capacity == 512 && output_length == 32 {
        Sha3Variant::Sha3_256
    } else if capacity == 768 && output_length == 48 {
        Sha3Variant::Sha3_384
    } else if capacity == 1024 && output_length == 64 {
        Sha3Variant::Sha3_512
    } else {
        Sha3Variant::Sha3_256
    }
}

/// The human-readable name of a variant.
pub open spec fn variant_name(v: Sha3Variant) -> Seq<char> {
    match v {
        Sha3Variant::Sha3_224 => "SHA3-224"@,
        Sha3Variant::Sha3_256 => "SHA3-256"@,
        Sha3Variant::Sha3_384 => "SHA3-384"@,
        Sha3Variant::Sha3_512 => "SHA3-512"@,
    }
}

/// The SHA-3 digest of `msg` under variant `v`.
pub open spec fn variant_digest(v: Sha3Variant, msg: Seq<u8>) -> Seq<u8> {
    sponge::sha3_digest(msg, variant_rate(v), variant_output_length(v))
}

/// Each variant's parameters form a valid configuration, and reading the
/// variant back from its capacity and digest length gives the same variant.
pub proof fn lemma_variant_round_trip(v: Sha3Variant)
    ensures
        valid_config(variant_rate(v), variant_capacity(v), variant_output_length(v)),
        variant_of(variant_capacity(v), variant_output_length(v)) == v,
        variant_rate(v) * 8 + variant_capacity(v) == 1600,
        variant_capacity(v) == 2 * (variant_output_length(v) * 8),
{
}

/// A valid configuration names the variant whose parameters it holds.
pub proof fn lemma_config_variant(m: KeccakModel)
    requires
        m.wf(),
    ensures
        variant_rate(variant_of(m.capacity, m.output_length)) == m.rate,
        variant_capacity(variant_of(m.capacity, m.output_length)) == m.capacity,
        variant_output_length(variant_of(m.capacity, m.output_length)) == m.output_length,
{
}

/// A state made for variant `v` still reports `v` after any sequence of
/// `set_input` and `step` calls.
pub proof fn lemma_variant_survives_ops(v: Sha3Variant, ops: Seq<StateOp>)
    ensures
        variant_of(
            initial_model(v).apply_ops(ops).capacity,
            initial_model(v).apply_ops(ops).output_length,
        ) == v,
{
    lemma_ops_keep_config(initial_model(v), ops);
}

/// The name of the step that the next call of `step` carries out.
pub open spec fn step_name(m: KeccakModel) -> Seq<char> {
    if m.is_complete {
        "Complete"@
    } else if m.absorbing() {
        "Absorb Input"@
    } else if m.step == 0 {
        "Theta (θ)"@
    } else if m.step == 1 {
        "Rho (ρ)"@
    } else if m.step == 2 {
        "Pi (π)"@
    } else if m.step == 3 {
        "Chi (χ)"@
    } else if m.step == 4 {
        "Iota (ι)"@
    } else {
        "Unknown"@
    }
}

/// Bit `y` of lane `i`.
pub open spec fn lane_bit(lanes: Seq<u64>, i: int, y: u64) -> bool {
    (lanes[i] >> y) & 1u64 == 1u64
}

impl Sha3Variant {
    /// Returns the human-readable name of the variant.
    pub fn name(&self) -> (s: &'static str)
        ensures
            s@ == variant_name(*self),
    {
        match self {
            Sha3Variant::Sha3_224 => "SHA3-224",
            Sha3Variant::Sha3_256 => "SHA3-256",
            Sha3Variant::Sha3_384 => "SHA3-384",
            Sha3Variant::Sha3_512 => "SHA3-512",
        }
    }
}

/// The state of a step-by-step SHA-3 computation.
#[derive(Debug, Clone)]
pub struct KeccakState {
    /// The 1600-bit state as 25 lanes; lane (x, z) is `state[x + 5 * z]`.
    pub state: [u64; 25],
    /// Current round (0-23).
    pub round: usize,
    /// Current step within the round (0-4 for theta, rho, pi, chi, iota).
    pub step: usize,
    /// Whether the algorithm has completed all rounds of the last block.
    pub is_complete: bool,
    /// The message to be hashed.
    pub input_data: Vec<u8>,
    /// Number of blocks of the padded message absorbed so far.
    pub absorbed: usize,
    /// Rate in bytes; set by the constructor for the variant. This and the
    /// next two fields are public so that the state's view can be an open
    /// spec function over all fields; the methods that rely on them require
    /// `wf`, which holds them to one of the four SHA-3 parameter sets.
    pub rate: usize,
    /// Capacity in bits; set by the constructor for the variant.
    pub capacity: usize,
    /// Digest length in bytes; set by the constructor for the variant.
    pub output_length: usize,
}

impl View for KeccakState {
    type V = KeccakModel;

    open spec fn view(&self) -> KeccakModel {
        KeccakModel {
            lanes: self.state@,
            round: self.round as int,
            step: self.step as int,
            is_complete: self.is_complete,
            absorbed: self.absorbed as int,
            input: self.input_data@,
            rate: self.rate as int,
            capacity: self.capacity as int,
            output_length: self.output_length as int,
        }
    }
}

/// The model of a fresh state for variant `v` with no input.
pub open spec fn initial_model(v: Sha3Variant) -> KeccakModel {
    KeccakModel {
        lanes: zero_lanes(),
        round: 0,
        step: 0,
        is_complete: false,
        absorbed: 0,
        input: Seq::empty(),
        rate: variant_rate(v),
        capacity: variant_capacity(v),
        output_length: variant_output_length(v),
    }
}

/// The all-zero lane array.
fn zero_state() -> (s: [u64; 25])
    ensures
        s@ == zero_lanes(),
{
    let s = [0u64; 25];
    assert(s@ =~= zero_lanes());
    s
}

impl KeccakState {
    /// The configuration fields hold one of the four SHA-3 parameter sets.
    pub open spec fn wf(&self) -> bool {
        self@.wf()
    }

    /// Creates a new state configured for SHA3-256 (rate 1088 bits, capacity
    /// 512 bits, 256-bit digest), with empty input.
    pub fn new() -> (s: Self)
        ensures
            s@ == initial_model(Sha3Variant::Sha3_256),
            s.wf(),
    {
        Self::new_with_variant(Sha3Variant::Sha3_256)
    }

    /// Creates a new state configured for `variant`, with empty input.
    pub fn new_with_variant(variant: Sha3Variant) -> (s: Self)
        ensures
            s@ == initial_model(variant),
            s.wf(),
    {
        let (rate, capacity, output_length): (usize, usize, usize) = match variant {
            Sha3Variant::Sha3_224 => (1152, 448, 28),
            Sha3Variant::Sha3_256 => (1088, 512, 32),
            Sha3Variant::Sha3_384 => (832, 768, 48),
            Sha3Variant::Sha3_512 => (576, 1024, 64),
        };
        let s = Self {
            state: zero_state(),
            round: 0,
            step: 0,
            is_complete: false,
            input_data: Vec::new(),
            absorbed: 0,
            rate: rate / 8,
            capacity,
            output_length,
        };
        assert(s@.input =~= Seq::<u8>::empty());
        s
    }

    /// Stores the bytes of `data` as the input and resets the state: zero
    /// lanes, round 0, step 0, nothing absorbed, not complete. The variant is
    /// kept.
    pub fn set_input(&mut self, data: &str)
        ensures
            final(self)@ == old(self)@.with_input(data.spec_bytes()),
    {
        self.input_data = vstd::slice::slice_to_vec(data.as_bytes());
        self.absorbed = 0;
        self.round = 0;
        self.step = 0;
        self.is_complete = false;
        self.state = zero_state();
    }

    /// Whether bit `y` of lane (x, z) is set; `false` for coordinates outside
    /// x < 5, y < 64, z < 5.
    pub fn get_bit(&self, x: usize, y: usize, z: usize) -> (b: bool)
        ensures
            b == (x < 5 && y < 64 && z < 5 && lane_bit(self.state@, x + 5 * z, y as u64)),
    {
        if x >= 5 || y >= 64 || z >= 5 {
            return false;
        }
        let lane_index = x + 5 * z;
        (self.state[lane_index] >> (y as u64)) & 1u64 == 1u64
    }

    /// The lane at (x, z), or 0 for coordinates outside the 5x5 grid.
    pub fn get_lane(&self, x: usize, z: usize) -> (v: u64)
        ensures
            v == (if x < 5 && z < 5 {
                self.state@[x + 5 * z]
            } else {
                0u64
            }),
    {
        if x >= 5 || z >= 5 {
            return 0;
        }
        self.state[x + 5 * z]
    }

    /// Absorbs the first block of the padded input into the lanes.
    fn absorb_input_step(&mut self)
        requires
            old(self).wf(),
        ensures
            final(self)@ == (KeccakModel {
                lanes: sponge::absorb(old(self)@.lanes, block(old(self)@.input, old(self)@.rate, 0)),
                absorbed: 1,
                ..old(self)@
            }),
    {
        proof {
            lemma_config_bounds(self@.rate, self@.capacity, self@.output_length);
        }
        absorb_block(&mut self.state, self.input_data.as_slice(), self.rate, 0);
        self.absorbed = 1;
    }

    /// Carries out one step: absorbing the first block if nothing has been
    /// absorbed at round 0, step 0; otherwise the step mapping of the current
    /// step. After iota of round 23, when at least one block is in and another
    /// is left, that block is absorbed and round 0 starts again; otherwise the
    /// state becomes complete and stays at round 23, step 4. A
    /// complete state is left unchanged; a step number above 4 restarts at
    /// round 0, step 0.
    pub fn step(&mut self)
        requires
            old(self).wf(),
            !old(self).is_complete && old(self).step == 4 ==> old(self).round < 24,
        ensures
            final(self)@ == old(self)@.next(),
    {
        if self.is_complete {
            return;
        }
        if self.round == 0 && self.step == 0 && self.absorbed == 0 {
            self.absorb_input_step();
            return;
        }
        proof {
            lemma_config_bounds(self@.rate, self@.capacity, self@.output_length);
        }
        if self.step == 0 {
            apply_theta(&mut self.state);
            self.step = 1;
        } else if self.step == 1 {
            apply_rho(&mut self.state);
            self.step = 2;
        } else if self.step == 2 {
            apply_pi(&mut self.state);
            self.step = 3;
        } else if self.step == 3 {
            apply_chi(&mut self.state);
            self.step = 4;
        } else if self.step == 4 {
            apply_iota(&mut self.state, self.round);
            let len = self.input_data.len();
            let rate = self.rate;
            assert(len / rate < len + 1) by (nonlinear_arith)
                requires
                    rate >= 72,
            ;
            if self.round < 23 {
                self.round = self.round + 1;
                self.step = 0;
            } else if self.absorbed >= 1 && self.absorbed < len / rate + 1 {
                absorb_block(&mut self.state, self.input_data.as_slice(), self.rate, self.absorbed);
                self.absorbed = self.absorbed + 1;
                self.round = 0;
                self.step = 0;
            } else {
                self.is_complete = true;
            }
        } else {
            self.round = 0;
            self.step = 0;
        }
    }

    /// The name of the step the next call of `step` carries out.
    pub fn get_current_step_name(&self) -> (name: String)
        ensures
            name@ == step_name(self@),
    {
        if self.is_complete {
            return String::from_str("Complete");
        }
        if self.round == 0 && self.step == 0 && self.absorbed == 0 {
            return String::from_str("Absorb Input");
        }
        if self.step == 0 {
            String::from_str("Theta (θ)")
        } else if self.step == 1 {
            String::from_str("Rho (ρ)")
        } else if self.step == 2 {
            String::from_str("Pi (π)")
        } else if self.step == 3 {
            String::from_str("Chi (χ)")
        } else if self.step == 4 {
            String::from_str("Iota (ι)")
        } else {
            String::from_str("Unknown")
        }
    }

    /// The first `output_length` bytes of the lanes (each lane
    /// little-endian) in lowercase hexadecimal.
    pub fn get_output_hex(&self) -> (h: String)
        requires
            self.wf(),
        ensures
            h@ == hex(self@.output()),
            h@.len() == 2 * self@.output_length,
            forall|i: int| 0 <= i < h@.len() ==> is_lower_hex_digit(#[trigger] h@[i]),
    {
        proof {
            lemma_config_bounds(self@.rate, self@.capacity, self@.output_length);
        }
        let bytes = squeeze_bytes(&self.state, self.output_length);
        to_hex(bytes.as_slice())
    }

    /// All 200 bytes of the state, lane by lane, each lane little-endian.
    pub fn get_state_as_bytes(&self) -> (bytes: Vec<u8>)
        ensures
            bytes@ == squeeze(self.state@, 200),
    {
        squeeze_bytes(&self.state, 200)
    }

    /// The capacity in bits.
    pub fn get_capacity(&self) -> (c: usize)
        ensures
            c == self@.capacity,
    {
        self.capacity
    }

    /// The rate in bits.
    pub fn get_rate(&self) -> (r: usize)
        requires
            self.wf(),
        ensures
            r == self@.rate * 8,
    {
        self.rate * 8
    }

    /// The digest length in bits.
    pub fn get_output_length(&self) -> (d: usize)
        requires
            self.wf(),
        ensures
            d == self@.output_length * 8,
    {
        self.output_length * 8
    }

    /// The variant matching the configured capacity and digest length.
    pub fn get_variant(&self) -> (v: Sha3Variant)
        ensures
            v == variant_of(self@.capacity, self@.output_length),
    {
        if self.capacity == 448 && self.output_length == 28 {
            Sha3Variant::Sha3_224
        } else if self.capacity == 512 && self.output_length == 32 {
            Sha3Variant::Sha3_256
        } else if self.capacity == 768 && self.output_length == 48 {
            Sha3Variant::Sha3_384
        } else if self.capacity == 1024 && self.output_length == 64 {
            Sha3Variant::Sha3_512
        } else {
            Sha3Variant::Sha3_256
        }
    }
}

} // verus!
