use ciphers::des::Des;
use ciphers::halves::{merge_halves, rotate_key, rotate_left};
use ciphers::perm::permutate;
use ciphers::round::{merge_4bit_chunks, split_6bit_chunks, substitute};
use ciphers::tables::{PC_1, PC_2, S};

#[test]
fn test_encrypt_decrypt() {
    let cipher = Des::new(u64::MAX - 1234);

    let plaintext: u64 = 123456789101112u64;
    let ciphertext: u64 = cipher.encrypt(plaintext);

    assert_ne!(plaintext, ciphertext);
    assert_eq!(plaintext, cipher.decrypt(ciphertext));
}

#[test]
fn cipher_test_pc_1() {
    let key: u64 = 18446744073709550381;
    // 11111111_11111111_11111111_11111111_11111111_11111111_11111011_00101101
    let expected = 35888057248645119;
    // 00000000_01111111_01111111_11111111_01110111_11111011_11111111_11111111
    assert_eq!(permutate(key, &PC_1, 64), expected);
}

#[test]
fn test_pc_2() {
    let key: u64 = 35888057248645119;
    // 00000000_01111111_01111111_11111111_01110111_11111011_11111111_11111111
    let expected = 272678883688445;
    // 00000000_00000000_11110111_11111111_11111111_11111111_11111111_11111101
    assert_eq!(permutate(key, &PC_2, 56), expected);
}

#[test]
fn cipher_test_rotate_left_28_bit() {
    let key = 216433336u64;
    // 1100111001101000001010111000
    let rotations = 2;
    let expected = 60426979u64;
    // 0011100110100000101011100011
    assert_eq!(rotate_left(key, rotations), expected);
}

#[test]
fn cipher_test_rotate_left_24_bit() {
    let key = 16433336u64; // key is 24-bit now
    // 0000111110101100000010111000
    let rotations = 1;
    let expected = 32866672u64;
    // 0001111101011000000101110000
    assert_eq!(rotate_left(key, rotations), expected);
}

#[test]
fn cipher_test_rotate_key() {
    let key: u64 = 46842079712850309;
    let round = 3; // two rotations
    // 1010011001101010100111111001_0001110100110011000110000101
    let expected: u64 = 43253131312416276;
    // 1001100110101010011111100110_0111010011001100011000010100
    assert_eq!(rotate_key(key, round), expected);
}

#[test]
fn test_substitution() {
    assert_eq!(substitute(0b011011, &S[4]), 9, "s_box test 1");
    assert_eq!(substitute(0b111110, &S[0]), 0, "s_box test 2");
    assert_eq!(substitute(0b111011, &S[2]), 5, "s_box test 3");
}

#[test]
fn test_merge_halves() {
    assert_eq!(merge_halves(0b10_1010, 0b01_1111, 6), 0b1010_1001_1111);
    assert_eq!(
        merge_halves(
            0b1111_0000_1111_0000_1111_0000_1111,
            0b0000_1111_0000_1111_0000_1111_0000,
            28
        ),
        0b1111_0000_1111_0000_1111_0000_1111_0000_1111_0000_1111_0000_1111_0000
    );
    assert_eq!(
        merge_halves(0xDEAD_BEEF, 0x0123_4567, 32),
        0xDEAD_BEEF_0123_4567
    );
    assert_eq!(merge_halves(0, 0, 6), 0b000000_000000);
    assert_eq!(merge_halves(0, 0b111111, 6), 0b000000_111111);
    assert_eq!(merge_halves(0b1, 0b0, 1), 0b10);
    assert_eq!(merge_halves(0b1010, 0b0101, 4), 0b1010_0101);
    assert_eq!(merge_halves(0xFFFF_FFFF, 0, 32), 0xFFFF_FFFF_0000_0000);
}

#[test]
fn test_split_6bit_chunks() {
    let output = split_6bit_chunks(0b111101_101110_011110_011001_101100_010101_001111_010100);
    let expected: [u64; 8] = [
        0b111101, 0b101110, 0b011110, 0b011001, 0b101100, 0b010101, 0b001111, 0b010100,
    ];
    assert_eq!(output, expected);
}

#[test]
fn test_merge_4bit_chunks() {
    let output = merge_4bit_chunks([
        0b1111, 0b1011, 0b0111, 0b0110, 0b1011, 0b0101, 0b0011, 0b0101,
    ]);
    let expected: u64 = 0b11111011011101101011010100110101;
    assert_eq!(output, expected);
}
