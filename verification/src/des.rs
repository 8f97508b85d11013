//! The DES cipher engine: key schedule, encryption and decryption, and
//! the proof that the two pipelines invert one another for every key and
//! every block.
use vstd::prelude::*;

use crate::halves::{
    merge_halves, merge_val, rotate_key, rotate_key_val, MASK_LEFT_32_BIT, MASK_RIGHT_32_BIT,
};
use crate::perm::{lemma_perm_val_bound, lemma_perm_val_inverse, perm_val, permutate};
use crate::round::{apply_f, f_val};
use crate::tables::{
    lemma_permutation_tables_inverse, lemma_tables_in_range, FINAL_PERMUTATION,
    INITIAL_PERMUTATION, PC_1, PC_2,
};

verus! {

/// The 56-bit key state as it enters round `i` (0-based): the PC-1 output
/// for round 0, and for later rounds the previous state with both halves
/// rotated.  `key_state(k, 16)` is the state after the last rotation.
pub open spec fn key_state(k: u64, i: int) -> u64
    recommends
        0 <= i <= 16,
    decreases i,
{
    if i <= 0 {
        perm_val(k, PC_1@, 64)
    } else {
        rotate_key_val(key_state(k, i - 1), i - 1)
    }
}

/// The 48-bit subkey that round `i` (0-based) receives: PC-2 applied to
/// the post-rotation key state of that round.  The uncompressed state,
/// not the subkey, carries forward to the next round.
pub open spec fn subkey(k: u64, i: int) -> u64
    recommends
        0 <= i < 16,
{
    perm_val(key_state(k, i + 1), PC_2@, 56)
}

/// The full schedule of sixteen round subkeys derived from master key `k`.
pub open spec fn key_schedule(k: u64) -> Seq<u64> {
    Seq::new(16, |i: int| subkey(k, i))
}

/// The Feistel rounds: each key in turn replaces `(l, r)` by
/// `(r, l xor f(r, key))`.
pub open spec fn feistel_rounds(l: u64, r: u64, keys: Seq<u64>) -> (u64, u64)
    decreases keys.len(),
{
    if keys.len() == 0 {
        (l, r)
    } else {
        feistel_rounds(r, l ^ f_val(r, keys[0]), keys.drop_first())
    }
}

/// What encryption returns: initial permutation, the Feistel rounds over
/// `keys` in the given order, one final half-swap, and the final
/// permutation.
pub open spec fn encrypt_val(keys: Seq<u64>, block: u64) -> u64 {
    let ip = perm_val(block, INITIAL_PERMUTATION@, 64);
    let l0 = (ip & MASK_LEFT_32_BIT) >> 32u64;
    let r0 = ip & MASK_RIGHT_32_BIT;
    let lr = feistel_rounds(l0, r0, keys);
    perm_val(merge_val(lr.1, lr.0, 32), FINAL_PERMUTATION@, 64)
}

/// What decryption returns: the same pipeline with the subkeys taken in
/// reverse order.
pub open spec fn decrypt_val(keys: Seq<u64>, block: u64) -> u64 {
    encrypt_val(keys.reverse(), block)
}

/// The exclusive or of two 32-bit values is a 32-bit value.
proof fn lemma_xor32_bound(a: u64, b: u64)
    by (bit_vector)
    ensures
        a < (1u64 << 32u64) && b < (1u64 << 32u64) ==> (a ^ b) < (1u64 << 32u64),
{
}

/// A 64-bit value splits into two 32-bit halves, and the halves put back
/// side by side restore it.
proof fn lemma_block_split(x: u64)
    by (bit_vector)
    ensures
        ((x & MASK_LEFT_32_BIT) >> 32u64) < (1u64 << 32u64),
        (x & MASK_RIGHT_32_BIT) < (1u64 << 32u64),
        ((((x & MASK_LEFT_32_BIT) >> 32u64) << 32u64) | (x & MASK_RIGHT_32_BIT)) == x,
{
}

/// Splitting a value merged from two 32-bit halves gives the halves back.
proof fn lemma_merge32_recovers_halves(a: u64, b: u64)
    by (bit_vector)
    ensures
        a < (1u64 << 32u64) && b < (1u64 << 32u64) ==> (((b << 32u64) | a) & MASK_LEFT_32_BIT)
            >> 32u64 == b && (((b << 32u64) | a) & MASK_RIGHT_32_BIT) == a,
{
}

/// The Feistel rounds keep both halves within 32 bits.
proof fn lemma_feistel_bounds(l: u64, r: u64, keys: Seq<u64>)
    requires
        l < (1u64 << 32u64),
        r < (1u64 << 32u64),
    ensures
        feistel_rounds(l, r, keys).0 < (1u64 << 32u64),
        feistel_rounds(l, r, keys).1 < (1u64 << 32u64),
    decreases keys.len(),
{
    if keys.len() > 0 {
        crate::round::lemma_f_val_bound(r, keys[0]);
        lemma_xor32_bound(l, f_val(r, keys[0]));
        lemma_feistel_bounds(r, l ^ f_val(r, keys[0]), keys.drop_first());
    }
}

/// Appending one key to the rounds applies one more round to their
/// result.
proof fn lemma_feistel_snoc(l: u64, r: u64, keys: Seq<u64>, k: u64)
    ensures
        feistel_rounds(l, r, keys.push(k)) == {
            let lr = feistel_rounds(l, r, keys);
            (lr.1, lr.0 ^ f_val(lr.1, k))
        },
    decreases keys.len(),
{
    reveal_with_fuel(feistel_rounds, 3);
    if keys.len() == 0 {
        assert(keys.push(k).drop_first() =~= Seq::<u64>::empty());
    } else {
        assert(keys.push(k).drop_first() =~= keys.drop_first().push(k));
        lemma_feistel_snoc(r, l ^ f_val(r, keys[0]), keys.drop_first(), k);
    }
}

/// Running the Feistel rounds again on the swapped result, with the keys
/// in reverse order, restores the swapped starting halves.
proof fn lemma_feistel_inverse(l: u64, r: u64, keys: Seq<u64>)
    ensures
        ({
            let lr = feistel_rounds(l, r, keys);
            feistel_rounds(lr.1, lr.0, keys.reverse()) == (r, l)
        }),
    decreases keys.len(),
{
    if keys.len() == 0 {
        assert(keys.reverse() =~= keys);
    } else {
        let fb = f_val(r, keys[0]);
        let l1 = r;
        let r1 = l ^ fb;
        lemma_feistel_inverse(l1, r1, keys.drop_first());
        let lr = feistel_rounds(l1, r1, keys.drop_first());
        assert(keys.reverse() =~= keys.drop_first().reverse().push(keys[0]));
        lemma_feistel_snoc(lr.1, lr.0, keys.drop_first().reverse(), keys[0]);
        assert(((l ^ fb) ^ fb) == l) by (bit_vector);
    }
}

/// Decrypting an encryption restores the block, whatever the key
/// schedule.
proof fn lemma_enc_then_dec(keys: Seq<u64>, block: u64)
    ensures
        decrypt_val(keys, encrypt_val(keys, block)) == block,
{
    lemma_tables_in_range();
    lemma_permutation_tables_inverse();
    let ip = perm_val(block, INITIAL_PERMUTATION@, 64);
    let l0 = (ip & MASK_LEFT_32_BIT) >> 32u64;
    let r0 = ip & MASK_RIGHT_32_BIT;
    lemma_block_split(ip);
    let lr = feistel_rounds(l0, r0, keys);
    lemma_feistel_bounds(l0, r0, keys);
    let m = merge_val(lr.1, lr.0, 32);
    lemma_perm_val_inverse(m, FINAL_PERMUTATION@, INITIAL_PERMUTATION@);
    lemma_merge32_recovers_halves(lr.0, lr.1);
    lemma_feistel_inverse(l0, r0, keys);
    lemma_perm_val_inverse(block, INITIAL_PERMUTATION@, FINAL_PERMUTATION@);
}

/// Round trip: for every key schedule and every 64-bit block, decryption
/// inverts encryption and encryption inverts decryption.
#[verifier::rlimit(50)]
pub proof fn lemma_round_trip(keys: Seq<u64>, block: u64)
    ensures
        decrypt_val(keys, encrypt_val(keys, block)) == block,
        encrypt_val(keys, decrypt_val(keys, block)) == block,
{
    lemma_enc_then_dec(keys, block);
    lemma_enc_then_dec(keys.reverse(), block);
    assert(keys.reverse().reverse() =~= keys);
}

/// Round trip stated over the master key: with the schedule derived
/// from any 64-bit key, decryption inverts encryption and encryption
/// inverts decryption, for every 64-bit block.
pub proof fn lemma_cipher_round_trip(k: u64, block: u64)
    ensures
        decrypt_val(key_schedule(k), encrypt_val(key_schedule(k), block)) == block,
        encrypt_val(key_schedule(k), decrypt_val(key_schedule(k), block)) == block,
{
    lemma_round_trip(key_schedule(k), block);
}

/// Data Encryption Standard.
///
/// Owns the sixteen 48-bit round subkeys derived once from the master
/// key; immutable afterwards, so one instance may serve any number of
/// encrypt and decrypt calls.
pub struct Des {
    round_keys: Vec<u64>,
}

impl View for Des {
    type V = Seq<u64>;

    /// The schedule of round subkeys, in round order.
    closed spec fn view(&self) -> Seq<u64> {
        self.round_keys@
    }
}

impl Des {
    #[verifier::type_invariant]
    spec fn wf(self) -> bool {
        self.round_keys@.len() == 16
    }

    /// Derives the key schedule from the 64-bit master key `k`: PC-1
    /// once, then per round a rotation of both 28-bit halves and a PC-2
    /// compression of the post-rotation state into that round's subkey.
    pub fn new(k: u64) -> (cipher: Des)
        ensures
            cipher@ == key_schedule(k),
    {
        proof {
            lemma_tables_in_range();
            lemma_perm_val_bound(k, PC_1@, 64);
        }
        let mut key_56_bit: u64 = permutate(k, PC_1.as_slice(), 64);
        let mut round_keys: Vec<u64> = Vec::new();
        for i in 0..16
            invariant
                round_keys@.len() == i,
                forall|j: int| 0 <= j < i ==> round_keys@[j] == subkey(k, j),
                key_56_bit == key_state(k, i as int),
                key_56_bit < (1u64 << 56u64),
        {
            key_56_bit = rotate_key(key_56_bit, i);
            let rk = permutate(key_56_bit, PC_2.as_slice(), 56);
            round_keys.push(rk);
        }
        proof {
            assert(round_keys@ =~= key_schedule(k));
        }
        Des { round_keys }
    }

    /// Encrypts one 64-bit block.  The result is determined by the
    /// schedule and the block alone, so repeated calls agree.
    pub fn encrypt(&self, plain_block: u64) -> (cipher_block: u64)
        ensures
            cipher_block == encrypt_val(self@, plain_block),
    {
        proof {
            use_type_invariant(self);
            lemma_tables_in_range();
        }
        let ip_block: u64 = permutate(plain_block, INITIAL_PERMUTATION.as_slice(), 64);
        proof {
            lemma_block_split(ip_block);
        }
        let mut left: u64 = (ip_block & MASK_LEFT_32_BIT) >> 32;
        let mut right: u64 = ip_block & MASK_RIGHT_32_BIT;
        let ghost l0 = left;
        let ghost r0 = right;
        for i in 0..16
            invariant
                self@.len() == 16,
                left < (1u64 << 32u64),
                right < (1u64 << 32u64),
                (left, right) == feistel_rounds(l0, r0, self@.take(i as int)),
        {
            proof {
                lemma_feistel_snoc(l0, r0, self@.take(i as int), self@[i as int]);
                assert(self@.take(i + 1) =~= self@.take(i as int).push(self@[i as int]));
            }
            let f_out = apply_f(right, self.round_keys[i]);
            proof {
                lemma_xor32_bound(left, f_out);
            }
            let new_left = right;
            let new_right = left ^ f_out;
            left = new_left;
            right = new_right;
        }
        proof {
            assert(self@.take(16) =~= self@);
        }
        let merged = merge_halves(right, left, 32);
        permutate(merged, FINAL_PERMUTATION.as_slice(), 64)
    }

    /// Decrypts one 64-bit block: the same pipeline as `encrypt`, with
    /// the round subkeys taken in reverse order.
    pub fn decrypt(&self, cipher_block: u64) -> (plain_block: u64)
        ensures
            plain_block == decrypt_val(self@, cipher_block),
    {
        proof {
            use_type_invariant(self);
            lemma_tables_in_range();
        }
        let ip_block: u64 = permutate(cipher_block, INITIAL_PERMUTATION.as_slice(), 64);
        proof {
            lemma_block_split(ip_block);
        }
        let mut left: u64 = (ip_block & MASK_LEFT_32_BIT) >> 32;
        let mut right: u64 = ip_block & MASK_RIGHT_32_BIT;
        let ghost l0 = left;
        let ghost r0 = right;
        let ghost rev = self@.reverse();
        for i in 0..16
            invariant
                self@.len() == 16,
                rev == self@.reverse(),
                left < (1u64 << 32u64),
                right < (1u64 << 32u64),
                (left, right) == feistel_rounds(l0, r0, rev.take(i as int)),
        {
            proof {
                lemma_feistel_snoc(l0, r0, rev.take(i as int), rev[i as int]);
                assert(rev.take(i + 1) =~= rev.take(i as int).push(rev[i as int]));
                assert(rev[i as int] == self@[15 - i as int]);
            }
            let f_out = apply_f(right, self.round_keys[15 - i]);
            proof {
                lemma_xor32_bound(left, f_out);
            }
            let new_left = right;
            let new_right = left ^ f_out;
            left = new_left;
            right = new_right;
        }
        proof {
            assert(rev.take(16) =~= rev);
        }
        let merged = merge_halves(right, left, 32);
        permutate(merged, FINAL_PERMUTATION.as_slice(), 64)
    }
}

} // verus!
