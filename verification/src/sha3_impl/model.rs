//! The mathematical model of the step-by-step SHA-3 state machine: what one
//! step does, how many steps are left, and the invariant that ties the lanes
//! to the sponge over the input.

use vstd::prelude::*;

use super::permutation::{iota, keccak_f, lemma_partial_full_round, partial, sub_step};
use super::sponge::{
    absorb,
    absorb_all,
    block,
    block_count,
    sha3_digest,
    sponge,
    squeeze,
    valid_rate,
    zero_lanes,
};

verus! {

/// The abstract value of a `KeccakState`.
pub struct KeccakModel {
    /// The 25 lanes, lane (x, z) at index x + 5 * z.
    pub lanes: Seq<u64>,
    /// Current round (0 ..= 23).
    pub round: int,
    /// Current step within the round (0 theta, 1 rho, 2 pi, 3 chi, 4 iota).
    pub step: int,
    /// Whether the last permutation has finished.
    pub is_complete: bool,
    /// Number of blocks of the padded input absorbed so far.
    pub absorbed: int,
    /// The message being hashed.
    pub input: Seq<u8>,
    /// The rate in bytes.
    pub rate: int,
    /// The capacity in bits.
    pub capacity: int,
    /// The digest length in bytes.
    pub output_length: int,
}

/// A call that changes a `KeccakState`: `set_input` with the given bytes, or
/// `step`.
pub enum StateOp {
    SetInput(Seq<u8>),
    Step,
}

/// The four SHA-3 parameter sets: (rate in bytes, capacity in bits, digest
/// length in bytes).
pub open spec fn valid_config(rate: int, capacity: int, output_length: int) -> bool {
    ||| (rate == 144 && capacity == 448 && output_length == 28)
    ||| (rate == 136 && capacity == 512 && output_length == 32)
    ||| (rate == 104 && capacity == 768 && output_length == 48)
    ||| (rate == 72 && capacity == 1024 && output_length == 64)
}

/// Steps left from a position (round, step) with `step <= 4`, when the state
/// still needs `blocks` blocks in all and `absorbed` are in.
pub open spec fn steps_from(round: int, step: int, absorbed: int, blocks: int) -> int {
    if round == 0 && step == 0 && absorbed == 0 {
        1 + 120 * blocks
    } else {
        (120 - (5 * round + step)) + 120 * (if 1 <= absorbed < blocks {
            blocks - absorbed
        } else {
            0
        })
    }
}

impl KeccakModel {
    /// The configuration is one of the four SHA-3 variants and there are 25 lanes.
    pub open spec fn wf(self) -> bool {
        &&& valid_config(self.rate, self.capacity, self.output_length)
        &&& self.lanes.len() == 25
    }

    /// Number of blocks of the padded input.
    pub open spec fn num_blocks(self) -> int {
        block_count(self.input.len() as int, self.rate)
    }

    /// The next step is the absorption of the first block.
    pub open spec fn absorbing(self) -> bool {
        !self.is_complete && self.round == 0 && self.step == 0 && self.absorbed == 0
    }

    /// The state after one step.
    pub open spec fn next(self) -> KeccakModel {
        if self.is_complete {
            self
        } else if self.absorbing() {
            KeccakModel {
                lanes: absorb(self.lanes, block(self.input, self.rate, 0)),
                absorbed: 1,
                ..self
            }
        } else if self.step < 4 {
            KeccakModel {
                lanes: sub_step(self.lanes, self.step, self.round),
                step: self.step + 1,
                ..self
            }
        } else if self.step == 4 {
            let t = iota(self.lanes, self.round);
            if self.round < 23 {
                KeccakModel { lanes: t, round: self.round + 1, step: 0, ..self }
            } else if 1 <= self.absorbed < self.num_blocks() {
                KeccakModel {
                    lanes: absorb(t, block(self.input, self.rate, self.absorbed)),
                    absorbed: self.absorbed + 1,
                    round: 0,
                    step: 0,
                    ..self
                }
            } else {
                KeccakModel { lanes: t, is_complete: true, ..self }
            }
        } else {
            KeccakModel { round: 0, step: 0, ..self }
        }
    }

    /// The state after `n` steps.
    pub open spec fn run(self, n: int) -> KeccakModel
        decreases n,
    {
        if n <= 0 {
            self
        } else {
            self.next().run(n - 1)
        }
    }

    /// A step can be taken: the configuration is valid and an iota step never
    /// meets a round past the last.
    pub open spec fn runnable(self) -> bool {
        &&& self.wf()
        &&& self.step >= 0
        &&& self.round >= 0
        &&& self.absorbed >= 0
        &&& (self.step <= 4 ==> self.round < 24)
    }

    /// The number of steps until the state is complete.
    pub open spec fn remaining(self) -> int {
        if self.is_complete {
            0
        } else if self.step > 4 {
            1 + steps_from(0, 0, self.absorbed, self.num_blocks())
        } else {
            steps_from(self.round, self.step, self.absorbed, self.num_blocks())
        }
    }

    /// The state at the start of block `a`'s permutation: the sponge state
    /// after `a` blocks, with block `a` XORed in.
    pub open spec fn block_start(self, a: int) -> Seq<u64> {
        absorb(absorb_all(self.input, self.rate, a), block(self.input, self.rate, a))
    }

    /// The lanes agree with the sponge over the input at the current position.
    pub open spec fn on_track(self) -> bool {
        &&& self.wf()
        &&& 0 <= self.absorbed <= self.num_blocks()
        &&& {
            ||| (self.absorbing() && self.lanes == zero_lanes())
            ||| (!self.is_complete && 1 <= self.absorbed && 0 <= self.round < 24 && 0 <= self.step
                <= 4 && self.lanes == partial(
                self.block_start(self.absorbed - 1),
                self.round,
                self.step,
            ))
            ||| (self.is_complete && self.absorbed == self.num_blocks() && self.lanes == sponge(
                self.input,
                self.rate,
            ))
        }
    }

    /// A state just after `set_input`: zero lanes, nothing absorbed, at the
    /// first step of the first round.
    pub open spec fn is_fresh(self) -> bool {
        &&& self.wf()
        &&& self.lanes == zero_lanes()
        &&& self.round == 0
        &&& self.step == 0
        &&& self.absorbed == 0
        &&& !self.is_complete
    }

    /// The state `set_input` leaves: zero lanes, round 0, step 0, nothing
    /// absorbed, not complete, holding `input`, same configuration.
    pub open spec fn with_input(self, input: Seq<u8>) -> KeccakModel {
        KeccakModel {
            lanes: zero_lanes(),
            round: 0,
            step: 0,
            is_complete: false,
            absorbed: 0,
            input,
            ..self
        }
    }

    /// The state after a sequence of `set_input` and `step` calls.
    pub open spec fn apply_ops(self, ops: Seq<StateOp>) -> KeccakModel
        decreases ops.len(),
    {
        if ops.len() == 0 {
            self
        } else {
            let m = match ops[0] {
                StateOp::SetInput(input) => self.with_input(input),
                StateOp::Step => self.next(),
            };
            m.apply_ops(ops.drop_first())
        }
    }

    /// The digest bytes read from the lanes.
    pub open spec fn output(self) -> Seq<u8> {
        squeeze(self.lanes, self.output_length)
    }
}

/// A valid configuration has a positive rate that is a multiple of 8 and at
/// most 200 bytes, and a digest no longer than the rate.
pub proof fn lemma_config_bounds(rate: int, capacity: int, output_length: int)
    requires
        valid_config(rate, capacity, output_length),
    ensures
        valid_rate(rate),
        0 < rate <= 200,
        rate % 8 == 0,
        output_length <= rate,
        rate * 8 + capacity == 1600,
        capacity == 2 * (output_length * 8),
{
}

/// One step takes one off the number of steps left, and keeps the state
/// runnable.
pub proof fn lemma_next_remaining(m: KeccakModel)
    requires
        m.runnable(),
        !m.is_complete,
    ensures
        m.remaining() >= 1,
        m.next().runnable(),
        m.next().remaining() == m.remaining() - 1,
        m.next().input == m.input,
        m.next().rate == m.rate,
        m.next().capacity == m.capacity,
        m.next().output_length == m.output_length,
{
}

/// A complete state is left as it is by a step.
pub proof fn lemma_complete_is_fixed(m: KeccakModel)
    requires
        m.is_complete,
    ensures
        m.next() == m,
        m.remaining() == 0,
{
}

/// Stepping in two stretches gives the same state as stepping in one: pausing
/// between steps does not change the outcome.
pub proof fn lemma_run_split(m: KeccakModel, a: int, b: int)
    requires
        a >= 0,
        b >= 0,
    ensures
        m.run(a + b) == m.run(a).run(b),
    decreases a,
{
    if a > 0 {
        lemma_run_split(m.next(), a - 1, b);
        assert(m.run(a + b) == m.next().run(a + b - 1));
    }
}

/// No sequence of `set_input` and `step` calls changes the configuration.
pub proof fn lemma_ops_keep_config(m: KeccakModel, ops: Seq<StateOp>)
    ensures
        m.apply_ops(ops).rate == m.rate,
        m.apply_ops(ops).capacity == m.capacity,
        m.apply_ops(ops).output_length == m.output_length,
    decreases ops.len(),
{
    if ops.len() > 0 {
        let n = match ops[0] {
            StateOp::SetInput(input) => m.with_input(input),
            StateOp::Step => m.next(),
        };
        lemma_ops_keep_config(n, ops.drop_first());
    }
}

/// A state on track stays on track through a step.
pub proof fn lemma_next_on_track(m: KeccakModel)
    requires
        m.on_track(),
    ensures
        m.next().on_track(),
{
    let n = m.next();
    if m.is_complete {
    } else if m.absorbing() {
        assert(absorb_all(m.input, m.rate, 0) == zero_lanes());
        assert(n.lanes == n.block_start(0));
        assert(n.lanes == partial(n.block_start(0), 0, 0));
    } else {
        let x = m.block_start(m.absorbed - 1);
        if m.step < 4 {
            assert(n.lanes == partial(x, m.round, m.step + 1));
        } else {
            lemma_partial_full_round(x, m.round);
            assert(iota(m.lanes, m.round) == partial(x, m.round, 5));
            if m.round < 23 {
                assert(n.lanes == partial(x, n.round, 0));
            } else {
                assert(iota(m.lanes, m.round) == keccak_f(x));
                assert(keccak_f(x) == absorb_all(m.input, m.rate, m.absorbed));
                if m.absorbed < m.num_blocks() {
                    assert(n.lanes == n.block_start(m.absorbed));
                    assert(n.lanes == partial(n.block_start(n.absorbed - 1), 0, 0));
                } else {
                    assert(n.lanes == sponge(m.input, m.rate));
                }
            }
        }
    }
}

/// Stepping a state that is on track until it is complete takes exactly
/// `remaining()` steps, no state before that is complete, and the lanes then
/// hold the sponge over the whole padded input.
pub proof fn lemma_run_to_sponge(m: KeccakModel)
    requires
        m.on_track(),
    ensures
        m.run(m.remaining()).is_complete,
        m.run(m.remaining()).lanes == sponge(m.input, m.rate),
        m.run(m.remaining()).input == m.input,
        m.run(m.remaining()).output_length == m.output_length,
        forall|k: int| 0 <= k < m.remaining() ==> !(#[trigger] m.run(k)).is_complete,
    decreases m.remaining(),
{
    if m.is_complete {
        assert(m.run(0) == m);
    } else {
        assert(m.runnable());
        lemma_next_remaining(m);
        lemma_next_on_track(m);
        let n = m.next();
        lemma_run_to_sponge(n);
        assert(m.run(m.remaining()) == n.run(n.remaining()));
        assert forall|k: int| 0 <= k < m.remaining() implies !(#[trigger] m.run(k)).is_complete by {
            if k > 0 {
                assert(m.run(k) == n.run(k - 1));
            }
        }
    }
}

/// From a fresh state, stepping runs `1 + 120 * num_blocks()` steps (one
/// absorption and 24 rounds of 5 steps per block) and leaves the SHA-3 digest
/// of the input in the first `output_length` bytes of the lanes.
pub proof fn lemma_fresh_run_gives_digest(m: KeccakModel)
    requires
        m.is_fresh(),
    ensures
        m.remaining() == 1 + 120 * m.num_blocks(),
        m.run(m.remaining()).is_complete,
        m.run(m.remaining()).output() == sha3_digest(m.input, m.rate, m.output_length),
        forall|k: int| 0 <= k < m.remaining() ==> !(#[trigger] m.run(k)).is_complete,
{
    lemma_config_bounds(m.rate, m.capacity, m.output_length);
    assert(m.num_blocks() >= 1) by {
        let len = m.input.len() as int;
        let r = m.rate;
        assert(len / r >= 0) by (nonlinear_arith)
            requires
                r > 0,
                len >= 0,
        ;
    }
    assert(m.on_track());
    lemma_run_to_sponge(m);
}

} // verus!
