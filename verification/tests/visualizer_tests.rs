//! Scenarios of the visualizer's key handling and animation.

use sha3::{Digest, Sha3_224, Sha3_256};
use sha3_visualizer::sha3_impl::{KeccakState, Sha3Variant};
use sha3_visualizer::visualizer::{
    decimal_string, step_description, variant_for_digit, KeccakVisualization, KeyPresses,
};

fn keys(quit: bool, enter: bool, reset: bool, play_pause: bool, fast_forward: bool) -> KeyPresses {
    KeyPresses { quit, enter, reset, play_pause, fast_forward }
}

#[test]
fn quit_changes_nothing() {
    let mut vis = KeccakVisualization::new("Hello SHA-3!", Sha3Variant::Sha3_256);
    let outcome = vis.handle_input(&keys(true, true, true, true, true));
    assert!(outcome.quit);
    assert!(!outcome.stepped && !outcome.reset && !outcome.play_toggled && !outcome.fast_forwarded);
    assert_eq!(vis.state.absorbed, 1);
    assert_eq!(vis.state.step, 0);
    assert!(!vis.is_playing);
}

#[test]
fn enter_steps_once() {
    let mut vis = KeccakVisualization::new("abc", Sha3Variant::Sha3_256);
    // The opening state already holds the absorbed input.
    assert_eq!(vis.state.absorbed, 1);
    assert_eq!(vis.state.round, 0);
    assert_eq!(vis.state.step, 0);
    let outcome = vis.handle_input(&keys(false, true, false, false, false));
    assert!(outcome.stepped);
    assert!(outcome.enter_check.is_none());
    assert_eq!(vis.state.step, 1);
    let outcome = vis.handle_input(&keys(false, true, false, false, false));
    assert!(outcome.stepped);
    assert_eq!(vis.state.step, 2);
}

#[test]
fn fast_forward_completes_and_checks_against_reference() {
    let mut vis = KeccakVisualization::new("abc", Sha3Variant::Sha3_224);
    let outcome = vis.handle_input(&keys(false, false, false, false, true));
    assert!(outcome.fast_forwarded);
    let check = outcome.fast_forward_check.expect("completion is checked");
    let expected = format!("{:x}", Sha3_224::digest(b"abc"));
    assert_eq!(check.our_hash, expected);
    assert_eq!(check.expected_hash, expected);
    assert!(check.matches);
    assert!(vis.is_complete);
    assert_eq!(vis.final_hash, expected);
    assert_eq!(vis.output_line(), format!("Final Hash: {}", expected));
    assert_eq!(vis.display_round(), 24);
    // A second fast-forward finds nothing left to do and reports nothing.
    let again = vis.handle_input(&keys(false, false, false, false, true));
    assert!(again.fast_forward_check.is_none());
}

#[test]
fn enter_on_last_step_reports_completion() {
    let mut vis = KeccakVisualization::new("", Sha3Variant::Sha3_256);
    let mut checks = 0;
    for _ in 0..120 {
        let outcome = vis.handle_input(&keys(false, true, false, false, false));
        if let Some(check) = outcome.enter_check {
            checks += 1;
            assert!(check.matches);
            assert_eq!(check.our_hash, format!("{:x}", Sha3_256::digest(b"")));
        }
    }
    assert_eq!(checks, 1);
    assert!(vis.is_complete);
}

#[test]
fn reset_keeps_variant_and_input() {
    let mut vis = KeccakVisualization::new("abc", Sha3Variant::Sha3_512);
    vis.handle_input(&keys(false, false, false, false, true));
    let outcome = vis.handle_input(&keys(false, false, true, false, false));
    assert!(outcome.reset);
    assert!(!vis.is_complete);
    assert!(vis.final_hash.is_empty());
    let mut opening = KeccakState::new_with_variant(Sha3Variant::Sha3_512);
    opening.set_input("abc");
    opening.step();
    assert_eq!(vis.state.state, opening.state);
    assert_eq!(vis.state.absorbed, 1);
    assert_eq!(vis.state.get_variant(), Sha3Variant::Sha3_512);
    assert_eq!(vis.state.input_data, b"abc".to_vec());
    assert_eq!(vis.display_round(), 1);
    // After the reset the same digit key still does nothing.
    let mut selected = Sha3Variant::Sha3_512;
    assert!(!vis.handle_variant_change(&mut selected, variant_for_digit(4)));
}

#[test]
fn status_lines() {
    let mut vis = KeccakVisualization::new("Hello SHA-3!", Sha3Variant::Sha3_384);
    assert_eq!(vis.input_line(), "Input: \"Hello SHA-3!\"");
    assert_eq!(vis.status_line(), "Computing...");
    assert_eq!(
        vis.capacity_line(),
        "Capacity: 768 bits | Rate: 832 bits | Output: 384 bits | SHA3-384"
    );
    assert_eq!(vis.round_line(), "Round: 1/24");
    assert_eq!(vis.step_line(), "Step: Theta - Column mixing");
    vis.handle_input(&keys(false, true, false, false, false));
    vis.handle_input(&keys(false, true, false, false, false));
    assert_eq!(vis.step_line(), "Step: Pi - Lane rearrangement");
    vis.handle_input(&keys(false, false, false, false, true));
    assert_eq!(vis.status_line(), "✓ HASH COMPLETE - Copy from terminal");
    assert_eq!(vis.round_line(), "Round: 24/24");
    assert_eq!(vis.step_line(), "Step: Complete - Final hash ready");
}

#[test]
fn long_input_is_cut_on_a_character_boundary() {
    let ascii = "a".repeat(60);
    let vis = KeccakVisualization::new(&ascii, Sha3Variant::Sha3_256);
    assert_eq!(vis.input_line(), format!("Input: \"{}...\"", "a".repeat(50)));
    // 49 ASCII bytes then a 3-byte character across byte 50.
    let mixed = format!("{}世界", "b".repeat(49));
    let vis = KeccakVisualization::new(&mixed, Sha3Variant::Sha3_256);
    assert_eq!(vis.input_line(), format!("Input: \"{}...\"", "b".repeat(49)));
    let exact = "c".repeat(50);
    let vis = KeccakVisualization::new(&exact, Sha3Variant::Sha3_256);
    assert_eq!(vis.input_line(), format!("Input: \"{}\"", exact));
}

#[test]
fn decimal_rendering() {
    assert_eq!(decimal_string(0), "0");
    assert_eq!(decimal_string(7), "7");
    assert_eq!(decimal_string(1088), "1088");
    assert_eq!(decimal_string(usize::MAX), usize::MAX.to_string());
}

#[test]
fn animation_ticks_until_complete_then_stops() {
    let mut vis = KeccakVisualization::new("tick", Sha3Variant::Sha3_384);
    assert!(vis.advance_animation().is_none());
    assert_eq!(vis.state.step, 0);
    vis.handle_input(&keys(false, false, false, true, false));
    assert!(vis.is_playing);
    let mut ticks = 0;
    let mut reported = None;
    while vis.is_playing {
        ticks += 1;
        if let Some(check) = vis.advance_animation() {
            reported = Some(check);
        }
    }
    assert_eq!(ticks, 120);
    assert!(reported.expect("completion reported").matches);
    assert!(vis.is_complete);
}

#[test]
fn variant_change_resets_only_for_a_new_variant() {
    let mut vis = KeccakVisualization::new("abc", Sha3Variant::Sha3_256);
    let mut selected = Sha3Variant::Sha3_256;
    vis.handle_input(&keys(false, true, false, false, false));
    assert!(!vis.handle_variant_change(&mut selected, Some(Sha3Variant::Sha3_256)));
    assert_eq!(vis.state.step, 1);
    assert!(!vis.handle_variant_change(&mut selected, None));
    assert!(vis.handle_variant_change(&mut selected, variant_for_digit(4)));
    assert_eq!(selected, Sha3Variant::Sha3_512);
    assert_eq!(vis.state.get_variant(), Sha3Variant::Sha3_512);
    assert_eq!(vis.state.absorbed, 1);
    assert_eq!(vis.state.step, 0);
}

#[test]
fn digit_keys_and_labels() {
    assert_eq!(variant_for_digit(1), Some(Sha3Variant::Sha3_224));
    assert_eq!(variant_for_digit(2), Some(Sha3Variant::Sha3_256));
    assert_eq!(variant_for_digit(3), Some(Sha3Variant::Sha3_384));
    assert_eq!(variant_for_digit(4), Some(Sha3Variant::Sha3_512));
    assert_eq!(variant_for_digit(5), None);
    assert_eq!(step_description(0), ("Theta", "Column mixing"));
    assert_eq!(step_description(3), ("Chi", "Non-linear transformation"));
    assert_eq!(step_description(4), ("Iota", "Round constant addition"));
    assert_eq!(step_description(9), ("Unknown", ""));
}

#[test]
fn output_line_before_completion_shows_a_prefix() {
    let vis = KeccakVisualization::new("abc", Sha3Variant::Sha3_256);
    // "abc", then the 0x06 padding byte, absorbed into lane 0.
    assert_eq!(vis.output_line(), format!("Output: 61626306{}...", "0".repeat(24)));
}
