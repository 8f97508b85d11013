use ciphers::aes::Aes;

#[test]
fn test_ksa() {
    let key: [u32; 8] = [
        2430607645, 2477337209, 3966267802, 2832764579,
        4025463770, 2937464051, 2278884081, 3015632120,
    ];

    Aes::new(key).expect("Aes::new failed for this key");
}

#[test]
fn test_ksa_panic() {
    let key: [u32; 8] = [
                 0, 2477337209, 3966267802, 2832764579,
        4025463770, 2937464051, 2278884081, 3015632120,
    ];

    Aes::new(key).expect_err("key size must be 128, 192 or 256 bits");
}

#[test]
fn test_192_bit_key_accepted() {
    let key: [u32; 8] = [0, 0, 7, 7, 7, 7, 7, 7];
    assert!(Aes::new(key).is_ok());
}

#[test]
fn test_256_bit_key_accepted() {
    let key: [u32; 8] = [0, 0, 0, 0, 1, 2, 3, 4];
    assert!(Aes::new(key).is_ok());
}

#[test]
fn test_all_zero_key_rejected_as_empty() {
    let key: [u32; 8] = [0; 8];
    assert_eq!(Aes::new(key).unwrap_err(), "key cannot be empty");
}

#[test]
fn test_wrong_key_sizes_rejected() {
    for head in [1usize, 3, 5, 6, 7] {
        let mut key: [u32; 8] = [0; 8];
        for chunk in key.iter_mut().skip(head) {
            *chunk = 1;
        }
        assert_eq!(
            Aes::new(key).unwrap_err(),
            "key size must be 128, 192 or 256 bits"
        );
    }
}
