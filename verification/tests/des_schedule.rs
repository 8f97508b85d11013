use ciphers::des::Des;
use ciphers::halves::{rotate_key, rotate_left};
use ciphers::perm::permutate;
use ciphers::tables::{FINAL_PERMUTATION, INITIAL_PERMUTATION, PC_1};

#[test]
fn test_key_scheduling() {
    Des::new(u64::MAX - 1234);
}

#[test]
fn des_test_permutation_tables() {
    for (i, &n) in INITIAL_PERMUTATION.iter().enumerate() {
        assert_eq!((i + 1) as u8, FINAL_PERMUTATION[(n - 1) as usize]);
    }
}

#[test]
fn des_test_pc_1() {
    let key: u64 = 18446744073709550381;
    // 11111111_11111111_11111111_11111111_11111111_11111111_11111011_00101101
    let expected = 35888057248645119;
    // 00000000_01111111_01111111_11111111_01110111_11111011_11111111_11111111
    assert_eq!(permutate(key, &PC_1, 64), expected);
}

#[test]
fn des_test_rotate_left_28_bit() {
    let key = 216433336u64;
    // 1100111001101000001010111000
    let rotations = 2;
    let expected = 60426979u64;
    // 0011100110100000101011100011
    assert_eq!(rotate_left(key, rotations), expected);
}

#[test]
fn des_test_rotate_left_24_bit() {
    let key = 16433336u64; // key is 24-bit now
    // 0000111110101100000010111000
    let rotations = 1;
    let expected = 32866672u64;
    // 0001111101011000000101110000
    assert_eq!(rotate_left(key, rotations), expected);
}

#[test]
fn des_test_rotate_key() {
    let key: u64 = 46842079712850309;
    let round = 3; // two rotations
    // 1010011001101010100111111001_0001110100110011000110000101
    let expected: u64 = 43253131312416276;
    // 1001100110101010011111100110_0111010011001100011000010100
    assert_eq!(rotate_key(key, round), expected);
}
