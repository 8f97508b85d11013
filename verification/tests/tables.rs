use ciphers::tables::{FINAL_PERMUTATION, INITIAL_PERMUTATION, PC_2};

#[test]
fn permutation_tables_test_permutation_tables() {
    for (i, &n) in INITIAL_PERMUTATION.iter().enumerate() {
        assert_eq!((i + 1) as u8, FINAL_PERMUTATION[(n - 1) as usize]);
    }

    // Weak guard, but still better than nothing.
    for (i, &n) in PC_2.iter().enumerate() {
        if i < 24 {
            assert!(n <= 28)
        } else {
            assert!(n > 28)
        };
    }
}
