use ciphers::arc4::AllegedRc4;

const SEED: &[u8] = b"some not random key for tests";

#[test]
fn test_oversized_key() {
    AllegedRc4::new(&[0u8; 500]);
}

#[test]
fn test_encrypt() {
    let mut cipher = AllegedRc4::new(SEED);
    let mut decipher = AllegedRc4::new(SEED);

    let message = b"I want to encode this";
    let mut ciphertext = message.to_vec();

    cipher.apply_keystream(&mut ciphertext);
    assert_ne!(ciphertext, message, "Message should be encrypted");

    decipher.apply_keystream(&mut ciphertext);
    assert_eq!(ciphertext, message, "Message should be decrypted");
}

#[test]
fn test_known_keystream_vector() {
    // The widely published example: key "Key", plaintext "Plaintext".
    let mut cipher = AllegedRc4::new(b"Key");
    let mut data = b"Plaintext".to_vec();
    cipher.apply_keystream(&mut data);
    assert_eq!(
        data,
        vec![0xBB, 0xF3, 0x16, 0xE8, 0xD9, 0x40, 0xAF, 0x0A, 0xD3]
    );
}

#[test]
fn test_process_byte_matches_apply_keystream() {
    let mut one_by_one = AllegedRc4::new(SEED);
    let mut at_once = AllegedRc4::new(SEED);

    let message = b"byte by byte";
    let mut expected = message.to_vec();
    at_once.apply_keystream(&mut expected);

    let produced: Vec<u8> = message.iter().map(|&b| one_by_one.process_byte(b)).collect();
    assert_eq!(produced, expected);
}

#[test]
fn test_single_byte_key() {
    let mut cipher = AllegedRc4::new(&[0x2A]);
    let mut decipher = AllegedRc4::new(&[0x2A]);

    let mut data = vec![0u8, 1, 2, 3, 254, 255];
    cipher.apply_keystream(&mut data);
    decipher.apply_keystream(&mut data);
    assert_eq!(data, vec![0u8, 1, 2, 3, 254, 255]);
}
