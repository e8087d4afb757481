//! Unit scenarios of the SHA-3 state machine.

use sha3::{Digest, Sha3_256};
use sha3_visualizer::sha3_impl::constants::{RHO_OFFSETS, ROUND_CONSTANTS};
use sha3_visualizer::sha3_impl::{KeccakState, Sha3Variant};

/// Test basic KeccakState initialization
#[test]
fn test_keccak_state_new() {
    let state = KeccakState::new();
    
    // Check initial state
    assert_eq!(state.round, 0);
    assert_eq!(state.step, 0);
    assert!(!state.is_complete);
    assert_eq!(state.state, [0u64; 25]);
    assert_eq!(state.get_capacity(), 512);
    assert_eq!(state.get_rate(), 1088);
    assert_eq!(state.get_output_length(), 256);
}

/// Test SHA-3 variant initialization
#[test]
fn test_keccak_variants() {
    let sha224 = KeccakState::new_with_variant(Sha3Variant::Sha3_224);
    assert_eq!(sha224.get_capacity(), 448);
    assert_eq!(sha224.get_rate(), 1152);
    assert_eq!(sha224.get_output_length(), 224);
    assert_eq!(sha224.get_variant(), Sha3Variant::Sha3_224);

    let sha256 = KeccakState::new_with_variant(Sha3Variant::Sha3_256);
    assert_eq!(sha256.get_capacity(), 512);
    assert_eq!(sha256.get_rate(), 1088);
    assert_eq!(sha256.get_output_length(), 256);
    assert_eq!(sha256.get_variant(), Sha3Variant::Sha3_256);

    let sha384 = KeccakState::new_with_variant(Sha3Variant::Sha3_384);
    assert_eq!(sha384.get_capacity(), 768);
    assert_eq!(sha384.get_rate(), 832);
    assert_eq!(sha384.get_output_length(), 384);
    assert_eq!(sha384.get_variant(), Sha3Variant::Sha3_384);

    let sha512 = KeccakState::new_with_variant(Sha3Variant::Sha3_512);
    assert_eq!(sha512.get_capacity(), 1024);
    assert_eq!(sha512.get_rate(), 576);
    assert_eq!(sha512.get_output_length(), 512);
    assert_eq!(sha512.get_variant(), Sha3Variant::Sha3_512);
}

/// Test input setting and state reset
#[test]
fn test_set_input() {
    let mut state = KeccakState::new();
    
    // Set some initial state to verify reset
    state.round = 5;
    state.step = 3;
    state.is_complete = true;
    state.state[0] = 0x123456789ABCDEF0;
    
    // Set input and verify reset
    state.set_input("test input");
    assert_eq!(state.round, 0);
    assert_eq!(state.step, 0);
    assert!(!state.is_complete);
    assert_eq!(state.state, [0u64; 25]);
    assert_eq!(state.input_data, b"test input");
}

/// Test bit-level access to the state matrix
#[test]
fn test_bit_access() {
    let mut state = KeccakState::new();
    
    // Test bounds checking
    assert!(!state.get_bit(5, 0, 0)); // x out of bounds
    assert!(!state.get_bit(0, 64, 0)); // y out of bounds
    assert!(!state.get_bit(0, 0, 5)); // z out of bounds
    
    // Set a specific bit pattern and test access
    state.state[0] = 0x8000000000000001; // Set bits 0 and 63
    assert!(state.get_bit(0, 0, 0));   // Bit 0 should be set
    assert!(state.get_bit(0, 63, 0));  // Bit 63 should be set
    assert!(!state.get_bit(0, 1, 0));  // Bit 1 should be unset
    assert!(!state.get_bit(0, 62, 0)); // Bit 62 should be unset
}


/// Test step-by-step algorithm execution
#[test]
fn test_step_execution() {
    let mut state = KeccakState::new();
    state.set_input("test");
    
    // Initial state should be ready for absorption
    assert_eq!(state.round, 0);
    assert_eq!(state.step, 0);
    assert!(!state.is_complete);
    
    // First step should absorb input
    state.step();
    assert_eq!(state.absorbed, 1);
    
    // Continue through the steps
    let initial_round = state.round;
    let initial_step = state.step;
    
    state.step(); // Should advance to next step
    
    // Verify step advancement
    if initial_step < 4 {
        assert_eq!(state.step, initial_step + 1);
        assert_eq!(state.round, initial_round);
    } else {
        // Should advance to next round
        assert_eq!(state.step, 0);
        assert_eq!(state.round, initial_round + 1);
    }
}

/// Test complete algorithm execution against reference implementation
#[test]
fn test_complete_algorithm() {
    let test_cases = vec![
        "",
        "a",
        "abc",
        "message digest",
        "abcdefghijklmnopqrstuvwxyz",
        "ABCDEFGHIJKLMNOPQRSTUVWXYZabcdefghijklmnopqrstuvwxyz0123456789",
        "The quick brown fox jumps over the lazy dog",
    ];

    for test_input in test_cases {
        let mut state = KeccakState::new();
        state.set_input(test_input);
        
        // Run algorithm to completion
        while !state.is_complete {
            state.step();
        }
        
        // Compare with reference implementation
        let mut reference = Sha3_256::new();
        reference.update(test_input.as_bytes());
        let expected = format!("{:x}", reference.finalize());
        let actual = state.get_output_hex();
        
        assert_eq!(
            actual, expected,
            "Hash mismatch for input '{}'\nExpected: {}\nActual:   {}",
            test_input, expected, actual
        );
    }
}

/// Test that stepping completed algorithm doesn't change state
#[test]
fn test_completed_algorithm_immutable() {
    let mut state = KeccakState::new();
    state.set_input("test");
    
    // Complete the algorithm
    while !state.is_complete {
        state.step();
    }
    
    let final_state = state.state;
    let final_hash = state.get_output_hex();
    
    // Try to step further
    state.step();
    state.step();
    
    // State should be unchanged
    assert_eq!(state.state, final_state);
    assert_eq!(state.get_output_hex(), final_hash);
    assert!(state.is_complete);
}

/// Test hash output formatting
#[test]
fn test_output_formatting() {
    let mut state = KeccakState::new();
    state.set_input("abc");
    
    while !state.is_complete {
        state.step();
    }
    
    let hash = state.get_output_hex();
    
    // SHA3-256 should produce exactly 64 hex characters (32 bytes * 2)
    assert_eq!(hash.len(), 64);
    
    // Should only contain valid hex characters
    assert!(hash.chars().all(|c| c.is_ascii_hexdigit()));
    
    // Should be lowercase
    assert_eq!(hash, hash.to_lowercase());
}

/// Test constants are properly defined
#[test]
fn test_constants() {
    // Test that we have the correct number of round constants
    assert_eq!(ROUND_CONSTANTS.len(), 24);
    
    // Test that rho offsets are properly sized
    assert_eq!(RHO_OFFSETS.len(), 5);
    for row in RHO_OFFSETS.iter() {
        assert_eq!(row.len(), 5);
    }
    
    // Test specific known values
    assert_eq!(ROUND_CONSTANTS[0], 0x0000000000000001);
    assert_eq!(ROUND_CONSTANTS[1], 0x0000000000008082);
    assert_eq!(RHO_OFFSETS[0][0], 0); // Lane [0,0] should have no rotation
}

/// Test edge cases and error conditions
#[test]
fn test_edge_cases() {
    let mut state = KeccakState::new();
    
    // Empty input should work
    state.set_input("");
    while !state.is_complete {
        state.step();
    }
    assert!(state.is_complete);
    
    // Very long input should work
    let long_input = "a".repeat(1000);
    state.set_input(&long_input);
    while !state.is_complete {
        state.step();
    }
    assert!(state.is_complete);
    
    // Binary data (invalid UTF-8) should work
    state.input_data = vec![0xFF, 0xFE, 0xFD, 0x00, 0x01];
    state.absorbed = 0;
    state.round = 0;
    state.step = 0;
    state.is_complete = false;
    state.state = [0u64; 25];
    
    while !state.is_complete {
        state.step();
    }
    assert!(state.is_complete);
}
