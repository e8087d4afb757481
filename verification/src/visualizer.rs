//! The decisions of the interactive visualizer: what each key does to the
//! SHA-3 computation, when the animation advances, when the hash counts as
//! complete and is checked against the `sha3` crate, and what the status
//! lines show. Rendering, timing and printing stay with the caller.

use vstd::prelude::*;
use vstd::string::StringSliceAdditionalSpecFns;
use vstd::utf8::{decode_utf8, encode_utf8, is_char_boundary};

use crate::reference::{reference_digest, reference_hash_hex, verify_hash_with_variant};
use crate::sha3_impl::model::{
    KeccakModel,
    lemma_next_on_track,
    lemma_next_remaining,
};
use crate::sha3_impl::sponge::{hex, hex_char, hex_digit, squeeze, squeeze_bytes, to_hex, zero_lanes};
use crate::sha3_impl::{
    lemma_config_variant,
    step_name,
    KeccakState,
    Sha3Variant,
    variant_capacity,
    variant_name,
    variant_of,
    variant_output_length,
    variant_rate,
};

verus! {

/// The keys pressed in one frame.
pub struct KeyPresses {
    /// Q: quit.
    pub quit: bool,
    /// ENTER: one step.
    pub enter: bool,
    /// R: reset to the initial state of the same variant with the same input.
    pub reset: bool,
    /// P: start or pause the animation.
    pub play_pause: bool,
    /// F: run all remaining steps.
    pub fast_forward: bool,
}

/// The comparison made when a hash completes.
pub struct HashCheck {
    /// The hash the state machine produced.
    pub our_hash: String,
    /// The `sha3` crate's hash of the same input and variant.
    pub expected_hash: String,
    /// Whether the two are equal.
    pub matches: bool,
}

/// What one frame's key presses did.
pub struct InputOutcome {
    /// Q was pressed; nothing else was done.
    pub quit: bool,
    /// A step was taken for ENTER.
    pub stepped: bool,
    /// The state was reset for R.
    pub reset: bool,
    /// The animation was started or paused for P.
    pub play_toggled: bool,
    /// The computation was run to completion for F.
    pub fast_forwarded: bool,
    /// The check made when ENTER completed the hash.
    pub enter_check: Option<HashCheck>,
    /// The check made when F completed the hash.
    pub fast_forward_check: Option<HashCheck>,
}

/// The visualizer's SHA-3 state together with its animation and completion
/// bookkeeping.
pub struct KeccakVisualization {
    /// The step-by-step computation.
    pub state: KeccakState,
    /// Whether automatic stepping is on.
    pub is_playing: bool,
    /// The text being hashed.
    pub input_text: String,
    /// Whether completion has been recorded.
    pub is_complete: bool,
    /// The hash recorded at completion (empty before).
    pub final_hash: String,
}

/// The abstract value of a `KeccakVisualization`.
pub struct VisModel {
    pub state: KeccakModel,
    pub is_playing: bool,
    pub input: Seq<char>,
    pub is_complete: bool,
    pub final_hash: Seq<char>,
}

impl View for KeccakVisualization {
    type V = VisModel;

    open spec fn view(&self) -> VisModel {
        VisModel {
            state: self.state@,
            is_playing: self.is_playing,
            input: self.input_text@,
            is_complete: self.is_complete,
            final_hash: self.final_hash@,
        }
    }
}

/// A fresh state for variant `v` holding `input`.
pub open spec fn fresh_model(v: Sha3Variant, input: Seq<u8>) -> KeccakModel {
    KeccakModel {
        lanes: zero_lanes(),
        round: 0,
        step: 0,
        is_complete: false,
        absorbed: 0,
        input,
        rate: variant_rate(v),
        capacity: variant_capacity(v),
        output_length: variant_output_length(v),
    }
}

/// The state shown at start-up and after a reset or a variant change: the
/// first block of `input` already absorbed.
pub open spec fn opening_model(v: Sha3Variant, input: Seq<u8>) -> KeccakModel {
    fresh_model(v, input).next()
}

/// The variant a model is configured for.
pub open spec fn model_variant(m: KeccakModel) -> Sha3Variant {
    variant_of(m.capacity, m.output_length)
}

/// The computation has just finished and completion is not recorded yet.
pub open spec fn newly_complete(v: VisModel) -> bool {
    v.state.is_complete && !v.is_complete
}

/// Records completion when the computation has just finished.
pub open spec fn settle(v: VisModel) -> VisModel {
    if newly_complete(v) {
        VisModel { is_complete: true, final_hash: hex(v.state.output()), ..v }
    } else {
        v
    }
}

/// `c` is the completion check of the model `v`: our hash is the state's
/// digest, the expected hash is the `sha3` crate's for the same variant and
/// input bytes, and `matches` says whether they agree.
pub open spec fn reports(c: HashCheck, v: VisModel) -> bool {
    &&& c.our_hash@ == hex(v.state.output())
    &&& c.expected_hash@ == hex(reference_digest(model_variant(v.state), encode_utf8(v.input)))
    &&& c.matches == (c.our_hash@ == c.expected_hash@)
}

/// The check returned when completion is recorded, and only then.
pub open spec fn check_for(check: Option<HashCheck>, v: VisModel) -> bool {
    &&& check.is_some() == newly_complete(v)
    &&& (check matches Some(c) ==> reports(c, v))
}

/// ENTER before the completion check: one step.
pub open spec fn stepped(v: VisModel) -> VisModel {
    VisModel { state: v.state.next(), ..v }
}

/// R: the opening state of the same variant over the same input, completion
/// cleared.
pub open spec fn after_reset(v: VisModel) -> VisModel {
    VisModel {
        state: opening_model(model_variant(v.state), encode_utf8(v.input)),
        is_complete: false,
        final_hash: Seq::empty(),
        ..v
    }
}

/// P: animation toggled.
pub open spec fn after_toggle(v: VisModel) -> VisModel {
    VisModel { is_playing: !v.is_playing, ..v }
}

/// F before the completion check: every remaining step.
pub open spec fn fast_forwarded(v: VisModel) -> VisModel {
    VisModel { state: v.state.run(v.state.remaining()), ..v }
}

/// The model after ENTER (when pressed), with its completion check.
pub open spec fn after_enter(v: VisModel, pressed: bool) -> VisModel {
    if pressed {
        settle(stepped(v))
    } else {
        v
    }
}

/// The model after R (when pressed).
pub open spec fn after_reset_key(v: VisModel, pressed: bool) -> VisModel {
    if pressed {
        after_reset(v)
    } else {
        v
    }
}

/// The model after P (when pressed).
pub open spec fn after_play_key(v: VisModel, pressed: bool) -> VisModel {
    if pressed {
        after_toggle(v)
    } else {
        v
    }
}

/// The model after F (when pressed), with its completion check.
pub open spec fn after_fast_forward(v: VisModel, pressed: bool) -> VisModel {
    if pressed {
        settle(fast_forwarded(v))
    } else {
        v
    }
}

/// One frame of keys, handled in the order Q, ENTER, R, P, F.
pub open spec fn after_keys(v: VisModel, k: KeyPresses) -> VisModel {
    if k.quit {
        v
    } else {
        after_fast_forward(
            after_play_key(after_reset_key(after_enter(v, k.enter), k.reset), k.play_pause),
            k.fast_forward,
        )
    }
}

/// One animation tick: a step while playing and not complete; on completion
/// the animation stops.
pub open spec fn after_tick(v: VisModel) -> VisModel {
    if v.is_playing && !v.is_complete {
        let w = settle(stepped(v));
        if newly_complete(stepped(v)) {
            VisModel { is_playing: false, ..w }
        } else {
            w
        }
    } else {
        v
    }
}

/// The variant a digit key selects: 1 SHA3-224, 2 SHA3-256, 3 SHA3-384,
/// 4 SHA3-512.
pub open spec fn digit_variant(digit: u8) -> Option<Sha3Variant> {
    if digit == 1 {
        Some(Sha3Variant::Sha3_224)
    } else if digit == 2 {
        Some(Sha3Variant::Sha3_256)
    } else if digit == 3 {
        Some(Sha3Variant::Sha3_384)
    } else if digit == 4 {
        Some(Sha3Variant::Sha3_512)
    } else {
        None
    }
}

/// The round shown to the user: 24 once complete, otherwise the current
/// round counted from 1.
pub open spec fn display_round(m: KeccakModel) -> int {
    if m.is_complete {
        24
    } else {
        m.round + 1
    }
}

/// The (name, description) shown for a step number.
pub open spec fn step_label(step: int) -> (Seq<char>, Seq<char>) {
    if step == 0 {
        ("Theta"@, "Column mixing"@)
    } else if step == 1 {
        ("Rho"@, "Bit rotation"@)
    } else if step == 2 {
        ("Pi"@, "Lane rearrangement"@)
    } else if step == 3 {
        ("Chi"@, "Non-linear transformation"@)
    } else if step == 4 {
        ("Iota"@, "Round constant addition"@)
    } else {
        ("Unknown"@, ""@)
    }
}

/// The output line: the recorded hash once complete, otherwise the first 32
/// hex digits of the current output followed by "...".
pub open spec fn output_line(v: VisModel) -> Seq<char> {
    if v.is_complete && v.final_hash.len() > 0 {
        "Final Hash: "@ + v.final_hash
    } else {
        "Output: "@ + hex(squeeze(v.state.lanes, 16)) + "..."@
    }
}

/// The decimal digits of `n`.
pub open spec fn decimal(n: nat) -> Seq<char>
    decreases n,
{
    if n < 10 {
        seq![hex_char(n as u8)]
    } else {
        decimal(n / 10) + seq![hex_char((n % 10) as u8)]
    }
}

/// Longest length of at most `n` bytes that ends on a character boundary.
pub open spec fn boundary_at_most(bytes: Seq<u8>, n: int) -> int
    decreases n,
{
    if n <= 0 {
        0
    } else if is_char_boundary(bytes, n) {
        n
    } else {
        boundary_at_most(bytes, n - 1)
    }
}

/// The input shown to the user: the whole text when its UTF-8 encoding has
/// at most 50 bytes, otherwise the longest prefix of whole characters that
/// fits in 50 bytes followed by "...".
pub open spec fn shown_input(text: Seq<char>) -> Seq<char> {
    let b = encode_utf8(text);
    if b.len() > 50 {
        decode_utf8(b.subrange(0, boundary_at_most(b, 50))) + "..."@
    } else {
        text
    }
}

/// The input line.
pub open spec fn input_line(v: VisModel) -> Seq<char> {
    "Input: \""@ + shown_input(v.input) + "\""@
}

/// The status line.
pub open spec fn status_line(v: VisModel) -> Seq<char> {
    if v.is_complete {
        "✓ HASH COMPLETE - Copy from terminal"@
    } else {
        "Computing..."@
    }
}

/// The parameter line: capacity, rate and digest length in bits, and the
/// variant's name.
pub open spec fn capacity_line(m: KeccakModel) -> Seq<char> {
    "Capacity: "@ + decimal(m.capacity as nat) + " bits | Rate: "@ + decimal((m.rate * 8) as nat)
        + " bits | Output: "@ + decimal((m.output_length * 8) as nat) + " bits | "@
        + variant_name(model_variant(m))
}

/// The round line.
pub open spec fn round_line(m: KeccakModel) -> Seq<char> {
    "Round: "@ + decimal(display_round(m) as nat) + "/24"@
}

/// The step line.
pub open spec fn step_line(m: KeccakModel) -> Seq<char> {
    if m.is_complete {
        "Step: Complete - Final hash ready"@
    } else {
        "Step: "@ + step_label(m.step).0 + " - "@ + step_label(m.step).1
    }
}

/// Renders `n` in decimal.
pub fn decimal_string(n: usize) -> (s: String)
    ensures
        s@ == decimal(n as nat),
    decreases n,
{
    if n < 10 {
        String::from_str(hex_digit(n as u8))
    } else {
        let mut s = decimal_string(n / 10);
        s.append(hex_digit((n % 10) as u8));
        s
    }
}

/// The variant selected by a digit key, if any.
pub fn variant_for_digit(digit: u8) -> (v: Option<Sha3Variant>)
    ensures
        v == digit_variant(digit),
{
    if digit == 1 {
        Some(Sha3Variant::Sha3_224)
    } else if digit == 2 {
        Some(Sha3Variant::Sha3_256)
    } else if digit == 3 {
        Some(Sha3Variant::Sha3_384)
    } else if digit == 4 {
        Some(Sha3Variant::Sha3_512)
    } else {
        None
    }
}

/// The (name, description) shown for a step number.
pub fn step_description(step: usize) -> (label: (&'static str, &'static str))
    ensures
        label.0@ == step_label(step as int).0,
        label.1@ == step_label(step as int).1,
{
    if step == 0 {
        ("Theta", "Column mixing")
    } else if step == 1 {
        ("Rho", "Bit rotation")
    } else if step == 2 {
        ("Pi", "Lane rearrangement")
    } else if step == 3 {
        ("Chi", "Non-linear transformation")
    } else if step == 4 {
        ("Iota", "Round constant addition")
    } else {
        ("Unknown", "")
    }
}

/// A state for `variant` holding the bytes of `input`, with the first block
/// absorbed.
fn opening_state(variant: Sha3Variant, input: &str) -> (s: KeccakState)
    ensures
        s@ == opening_model(variant, input.spec_bytes()),
        s@.on_track(),
{
    let mut s = KeccakState::new_with_variant(variant);
    s.set_input(input);
    proof {
        assert(s@.is_fresh());
        assert(s@.on_track());
        lemma_next_on_track(s@);
    }
    s.step();
    s
}

impl KeccakVisualization {
    /// The state is on track with its input and completion is recorded only
    /// for a complete state.
    pub open spec fn inv(&self) -> bool {
        &&& self.state@.on_track()
        &&& self.state@.input == encode_utf8(self.input_text@)
        &&& (self.is_complete ==> self.state.is_complete && self.final_hash@ == hex(
            self.state@.output(),
        ))
        &&& (!self.is_complete ==> self.final_hash@.len() == 0)
    }

    /// A visualization of `input` for `variant`, paused, showing the state
    /// after the input's first block was absorbed.
    pub fn new(input: &str, variant: Sha3Variant) -> (vis: Self)
        ensures
            vis.inv(),
            vis@ == (VisModel {
                state: opening_model(variant, encode_utf8(input@)),
                is_playing: false,
                input: input@,
                is_complete: false,
                final_hash: Seq::empty(),
            }),
    {
        KeccakVisualization {
            state: opening_state(variant, input),
            is_playing: false,
            input_text: String::from_str(input),
            is_complete: false,
            final_hash: String::new(),
        }
    }

    /// Records completion when the computation has just finished, and checks
    /// the hash against the `sha3` crate.
    fn record_completion(&mut self) -> (check: Option<HashCheck>)
        requires
            old(self).state.wf(),
            old(self).is_complete ==> old(self).state.is_complete,
        ensures
            final(self)@ == settle(old(self)@),
            final(self).state == old(self).state,
            final(self).input_text == old(self).input_text,
            check_for(check, old(self)@),
    {
        if self.state.is_complete && !self.is_complete {
            self.is_complete = true;
            self.final_hash = self.state.get_output_hex();
            let variant = self.state.get_variant();
            let expected_hash = reference_hash_hex(self.input_text.as_str(), variant);
            let matches = verify_hash_with_variant(
                self.final_hash.as_str(),
                self.input_text.as_str(),
                variant,
            );
            let our_hash = self.final_hash.clone();
            Some(HashCheck { our_hash, expected_hash, matches })
        } else {
            None
        }
    }

    /// Runs every remaining step of the computation.
    fn run_to_completion(&mut self)
        requires
            old(self).state@.on_track(),
        ensures
            final(self)@ == fast_forwarded(old(self)@),
            final(self).state@.on_track(),
            final(self).state.is_complete,
            final(self).state@.input == old(self).state@.input,
            old(self).state.is_complete ==> final(self).state@ == old(self).state@,
    {
        let ghost m0 = self.state@;
        while !self.state.is_complete
            invariant
                self.state@.on_track(),
                self.state@.run(self.state@.remaining()) == m0.run(m0.remaining()),
                self.state@.input == m0.input,
                m0.is_complete ==> self.state@ == m0,
                self.is_playing == old(self).is_playing,
                self.input_text == old(self).input_text,
                self.is_complete == old(self).is_complete,
                self.final_hash == old(self).final_hash,
            decreases self.state@.remaining(),
        {
            proof {
                lemma_next_remaining(self.state@);
                lemma_next_on_track(self.state@);
            }
            self.state.step();
        }
        assert(self.state@.run(0) == self.state@);
    }

    /// Handles one frame of key presses in the order Q, ENTER, R, P, F.
    pub fn handle_input(&mut self, keys: &KeyPresses) -> (outcome: InputOutcome)
        requires
            old(self).inv(),
        ensures
            final(self).inv(),
            final(self)@ == after_keys(old(self)@, *keys),
            outcome.quit == keys.quit,
            outcome.stepped == (!keys.quit && keys.enter),
            outcome.reset == (!keys.quit && keys.reset),
            outcome.play_toggled == (!keys.quit && keys.play_pause),
            outcome.fast_forwarded == (!keys.quit && keys.fast_forward),
            keys.quit ==> outcome.enter_check.is_none() && outcome.fast_forward_check.is_none(),
            !keys.quit && keys.enter ==> check_for(outcome.enter_check, stepped(old(self)@)),
            !keys.quit && !keys.enter ==> outcome.enter_check.is_none(),
            !keys.quit && keys.fast_forward ==> check_for(
                outcome.fast_forward_check,
                fast_forwarded(
                    after_play_key(
                        after_reset_key(after_enter(old(self)@, keys.enter), keys.reset),
                        keys.play_pause,
                    ),
                ),
            ),
            !keys.quit && !keys.fast_forward ==> outcome.fast_forward_check.is_none(),
    {
        let mut outcome = InputOutcome {
            quit: false,
            stepped: false,
            reset: false,
            play_toggled: false,
            fast_forwarded: false,
            enter_check: None,
            fast_forward_check: None,
        };
        if keys.quit {
            outcome.quit = true;
            return outcome;
        }
        if keys.enter {
            proof {
                lemma_next_on_track(self.state@);
            }
            self.state.step();
            outcome.enter_check = self.record_completion();
            outcome.stepped = true;
        }
        if keys.reset {
            let variant = self.state.get_variant();
            proof {
                lemma_config_variant(self.state@);
            }
            self.state = opening_state(variant, self.input_text.as_str());
            self.is_complete = false;
            self.final_hash = String::new();
            outcome.reset = true;
        }
        if keys.play_pause {
            self.is_playing = !self.is_playing;
            outcome.play_toggled = true;
        }
        if keys.fast_forward {
            self.run_to_completion();
            outcome.fast_forward_check = self.record_completion();
            outcome.fast_forwarded = true;
        }
        outcome
    }

    /// One animation tick: while playing and not complete, takes a step; when
    /// that completes the hash, records it, stops the animation and returns
    /// the check against the `sha3` crate.
    pub fn advance_animation(&mut self) -> (check: Option<HashCheck>)
        requires
            old(self).inv(),
        ensures
            final(self).inv(),
            final(self)@ == after_tick(old(self)@),
            old(self).is_playing && !old(self).is_complete ==> check_for(
                check,
                stepped(old(self)@),
            ),
            !(old(self).is_playing && !old(self).is_complete) ==> check.is_none(),
            old(self).is_playing && !old(self).is_complete ==> (final(self).is_playing
                <==> !final(self).state.is_complete),
    {
        if self.is_playing && !self.is_complete {
            proof {
                lemma_tick_plays_until_complete(self@);
                lemma_next_on_track(self.state@);
            }
            self.state.step();
            let check = self.record_completion();
            if check.is_some() {
                self.is_playing = false;
            }
            check
        } else {
            None
        }
    }

    /// Switches to `pressed` when it is a different variant from `selected`:
    /// the opening state of that variant over the same input, completion
    /// cleared.
    /// Returns whether it switched.
    pub fn handle_variant_change(
        &mut self,
        selected: &mut Sha3Variant,
        pressed: Option<Sha3Variant>,
    ) -> (switched: bool)
        requires
            old(self).inv(),
        ensures
            final(self).inv(),
            switched == (pressed is Some && pressed->0 != *old(selected)),
            switched ==> *final(selected) == pressed->0 && final(self)@ == (VisModel {
                state: opening_model(pressed->0, encode_utf8(old(self)@.input)),
                is_complete: false,
                final_hash: Seq::empty(),
                ..old(self)@
            }),
            !switched ==> *final(selected) == *old(selected) && final(self)@ == old(self)@,
    {
        match pressed {
            Some(variant) => {
                if variant != *selected {
                    *selected = variant;
                    self.state = opening_state(variant, self.input_text.as_str());
                    self.is_complete = false;
                    self.final_hash = String::new();
                    true
                } else {
                    false
                }
            },
            None => false,
        }
    }

    /// The round number shown to the user.
    pub fn display_round(&self) -> (r: usize)
        requires
            self.inv(),
        ensures
            r == display_round(self.state@),
            1 <= r <= 24,
            !self.state.is_complete ==> r == self.state.round + 1,
    {
        proof {
            lemma_display_round_in_range(self.state@);
        }
        if self.state.is_complete {
            24
        } else {
            self.state.round + 1
        }
    }

    /// The input line shown to the user. A text longer than 50 bytes is cut
    /// to its first 50 bytes and marked with "..."; where byte 50 falls inside
    /// a multi-byte character, the cut moves back to the last character
    /// boundary before it rather than splitting (and failing on) that
    /// character.
    pub fn input_line(&self) -> (line: String)
        ensures
            line@ == input_line(self@),
    {
        broadcast use vstd::utf8::group_utf8_lib;

        let text = self.input_text.as_str();
        let mut line = String::from_str("Input: \"");
        if text.as_bytes().len() > 50 {
            let ghost b = text.spec_bytes();
            assert(is_char_boundary(b, 0));
            let mut k: usize = 50;
            while !text.is_char_boundary(k)
                invariant
                    b == text.spec_bytes(),
                    b == encode_utf8(text@),
                    b.len() > 50,
                    0 <= k <= 50,
                    is_char_boundary(b, 0),
                    boundary_at_most(b, k as int) == boundary_at_most(b, 50),
                decreases k,
            {
                k = k - 1;
            }
            assert(k == boundary_at_most(b, 50));
            let (head, _tail) = text.split_at(k);
            assert(encode_utf8(head@) == b.subrange(0, k as int));
            assert(head@ == decode_utf8(b.subrange(0, boundary_at_most(b, 50)))) by {
                assert(decode_utf8(encode_utf8(head@)) == head@);
            }
            line.append(head);
            line.append("...");
            line.append("\"");
            assert(shown_input(text@) == head@ + "..."@);
            assert(line@ =~= input_line(self@));
        } else {
            line.append(text);
            line.append("\"");
            assert(line@ =~= input_line(self@));
        }
        line
    }

    /// The status line shown to the user.
    pub fn status_line(&self) -> (line: String)
        ensures
            line@ == status_line(self@),
    {
        if self.is_complete {
            String::from_str("✓ HASH COMPLETE - Copy from terminal")
        } else {
            String::from_str("Computing...")
        }
    }

    /// The parameter line shown to the user.
    pub fn capacity_line(&self) -> (line: String)
        requires
            self.inv(),
        ensures
            line@ == capacity_line(self.state@),
    {
        let mut line = String::from_str("Capacity: ");
        line.append(decimal_string(self.state.get_capacity()).as_str());
        line.append(" bits | Rate: ");
        line.append(decimal_string(self.state.get_rate()).as_str());
        line.append(" bits | Output: ");
        line.append(decimal_string(self.state.get_output_length()).as_str());
        line.append(" bits | ");
        line.append(self.state.get_variant().name());
        line
    }

    /// The round line shown to the user.
    pub fn round_line(&self) -> (line: String)
        requires
            self.inv(),
        ensures
            line@ == round_line(self.state@),
    {
        let mut line = String::from_str("Round: ");
        line.append(decimal_string(self.display_round()).as_str());
        line.append("/24");
        line
    }

    /// The step line shown to the user.
    pub fn step_line(&self) -> (line: String)
        ensures
            line@ == step_line(self.state@),
    {
        if self.state.is_complete {
            String::from_str("Step: Complete - Final hash ready")
        } else {
            let (name, description) = step_description(self.state.step);
            let mut line = String::from_str("Step: ");
            line.append(name);
            line.append(" - ");
            line.append(description);
            line
        }
    }

    /// The output line shown to the user.
    pub fn output_line(&self) -> (line: String)
        requires
            self.inv(),
        ensures
            line@ == output_line(self@),
            !self.is_complete ==> line@ == "Output: "@ + hex(self@.state.output()).subrange(0, 32)
                + "..."@,
            self.is_complete ==> line@ == "Final Hash: "@ + hex(self@.state.output()),
    {
        proof {
            lemma_output_line_shows_output(self@);
        }
        if self.is_complete && !self.final_hash.as_str().is_empty() {
            let mut line = String::from_str("Final Hash: ");
            line.append(self.final_hash.as_str());
            line
        } else {
            let head = squeeze_bytes(&self.state.state, 16);
            let mut line = String::from_str("Output: ");
            line.append(to_hex(head.as_slice()).as_str());
            line.append("...");
            line
        }
    }
}

/// Fast-forwarding a visualization whose state is on track completes it and
/// leaves the SHA-3 digest of the input's bytes in its output.
pub proof fn lemma_fast_forward_gives_digest(v: VisModel)
    requires
        v.state.on_track(),
    ensures
        fast_forwarded(v).state.is_complete,
        fast_forwarded(v).state.output() == crate::sha3_impl::sponge::sha3_digest(
            v.state.input,
            v.state.rate,
            v.state.output_length,
        ),
{
    crate::sha3_impl::model::lemma_run_to_sponge(v.state);
}

/// A tick on a playing, unfinished visualization takes exactly one step,
/// and the animation keeps playing unless that step completes the hash; it
/// stops exactly when the state becomes complete.
pub proof fn lemma_tick_plays_until_complete(v: VisModel)
    requires
        v.is_playing,
        !v.is_complete,
    ensures
        after_tick(v).state == v.state.next(),
        after_tick(v).is_playing <==> !after_tick(v).state.is_complete,
        after_tick(v).is_complete == after_tick(v).state.is_complete,
        after_tick(v).input == v.input,
{
}

/// The output line shows the state's digest output: before completion its
/// first 32 hex digits (the first 16 bytes, lanes in index order, each lane
/// little-endian) and "...", once completion is recorded with that output the
/// whole of it.
pub proof fn lemma_output_line_shows_output(v: VisModel)
    requires
        v.state.wf(),
        v.is_complete ==> v.final_hash == hex(v.state.output()),
        !v.is_complete ==> v.final_hash.len() == 0,
    ensures
        !v.is_complete ==> output_line(v) == "Output: "@ + hex(v.state.output()).subrange(0, 32)
            + "..."@,
        v.is_complete ==> output_line(v) == "Final Hash: "@ + hex(v.state.output()),
{
    crate::sha3_impl::model::lemma_config_bounds(v.state.rate, v.state.capacity, v.state.output_length);
    let out = v.state.output();
    let head = squeeze(v.state.lanes, 16);
    assert(head =~= out.subrange(0, 16));
    assert(hex(head) =~= hex(out).subrange(0, 32));
    assert(hex(out).len() > 0);
}

/// The round shown is always between 1 and 24: the current round counted
/// from 1 while running, 24 once complete; within a block a step never makes
/// it go down.
pub proof fn lemma_display_round_in_range(m: KeccakModel)
    requires
        m.on_track(),
    ensures
        1 <= display_round(m) <= 24,
        !m.is_complete ==> display_round(m) == m.round + 1,
        m.is_complete ==> display_round(m) == 24,
        m.next().absorbed == m.absorbed ==> display_round(m) <= display_round(m.next()),
{
    lemma_next_on_track(m);
}

/// The step line names the mapping that the next step applies: the label's
/// name begins the state's step name, and the five steps get five different
/// names and descriptions.
pub proof fn lemma_step_label_names_next_step(m: KeccakModel, other: int)
    requires
        !m.is_complete,
        !m.absorbing(),
        0 <= m.step < 5,
        0 <= other < 5,
        other != m.step,
    ensures
        step_label(m.step).0.len() <= step_name(m).len(),
        step_name(m).subrange(0, step_label(m.step).0.len() as int) == step_label(m.step).0,
        step_label(m.step).0 != step_label(other).0,
        step_label(m.step).1 != step_label(other).1,
{
    reveal_strlit("Theta");
    reveal_strlit("Rho");
    reveal_strlit("Pi");
    reveal_strlit("Chi");
    reveal_strlit("Iota");
    reveal_strlit("Column mixing");
    reveal_strlit("Bit rotation");
    reveal_strlit("Lane rearrangement");
    reveal_strlit("Non-linear transformation");
    reveal_strlit("Round constant addition");
    reveal_strlit("Theta (θ)");
    reveal_strlit("Rho (ρ)");
    reveal_strlit("Pi (π)");
    reveal_strlit("Chi (χ)");
    reveal_strlit("Iota (ι)");
    let a = step_label(m.step);
    let b = step_label(other);
    assert(step_name(m).subrange(0, a.0.len() as int) =~= a.0);
    if a.0.len() == b.0.len() {
        assert(a.0[0] != b.0[0]);
    }
    if a.1.len() == b.1.len() {
        assert(a.1[0] != b.1[0]);
    }
}

} // verus!
