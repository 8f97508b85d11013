use ciphers::des::Des;

#[test]
fn test_round_trip_both_directions() {
    let cipher = Des::new(0xA1B2_C3D4_E5F6_0718);
    for block in [0u64, 1, 42, 0xDEAD_BEEF_0123_4567, u64::MAX] {
        assert_eq!(cipher.decrypt(cipher.encrypt(block)), block);
        assert_eq!(cipher.encrypt(cipher.decrypt(block)), block);
    }
}

#[test]
fn test_determinism() {
    let cipher = Des::new(u64::MAX - 1234);
    let block: u64 = 123456789101112;
    let first = cipher.encrypt(block);
    let second = cipher.encrypt(block);
    assert_eq!(first, second);

    let other_instance = Des::new(u64::MAX - 1234);
    assert_eq!(other_instance.encrypt(block), first);
}

#[test]
fn test_key_sensitivity() {
    // The keys must differ outside the parity bits (the low bit of each
    // byte), which the key schedule discards.
    let block: u64 = 123456789101112;
    let one = Des::new(0x0123_4567_89AB_CDEF).encrypt(block);
    let other = Des::new(0x0123_4567_89AB_CDEF ^ 0x2).encrypt(block);
    assert_ne!(one, other);
}

#[test]
fn test_non_degeneracy() {
    let cipher = Des::new(0x0123_4567_89AB_CDEF);
    for block in [1u64, 0xFFFF_FFFF, 123456789101112] {
        assert_ne!(cipher.encrypt(block), block);
    }
}

#[test]
fn test_known_vector() {
    // The worked example found throughout the literature on this cipher.
    let cipher = Des::new(0x1334_5779_9BBC_DFF1);
    let plaintext: u64 = 0x0123_4567_89AB_CDEF;
    let ciphertext = cipher.encrypt(plaintext);
    assert_eq!(ciphertext, 0x85E8_1354_0F0A_B405);
    assert_eq!(cipher.decrypt(ciphertext), plaintext);
}

#[test]
fn test_zero_key_round_trip() {
    let cipher = Des::new(0);
    let block: u64 = 123456789101112;
    assert_eq!(cipher.decrypt(cipher.encrypt(block)), block);
}
