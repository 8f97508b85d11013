//! Verified building blocks of the DES block cipher, together with two
//! small companion ciphers: the ARC4 stream cipher and the stub of a
//! variable-key-size block cipher.
//!
//! The DES engine is specified down to single bits: the bit-permutation
//! primitive, the key schedule, the round function and the encrypt/decrypt
//! pipeline each carry a contract that pins their result exactly, and the
//! crate proves that decryption inverts encryption for every key and block.
pub mod tables;

pub mod perm;

pub mod halves;

pub mod round;

pub mod des;

pub mod arc4;

pub mod aes;
