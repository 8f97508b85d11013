//! The bit-permutation primitive.
//!
//! All tables speak of 1-based bit positions counted from the most
//! significant bit of a field of declared width.  The single spec function
//! `bit_of` fixes that convention; `perm_val` says what a permuted value
//! is, bit by bit.  The lemmas develop enough theory to invert a
//! permutation: a bound on the result, which input bit each output bit
//! carries, how two permutations compose, and that a table composed with
//! its inverse table restores the input.
use vstd::prelude::*;

use crate::tables::table_in_range;

verus! {

/// The bit of `v` at 1-based position `pos`, counted from the most
/// significant bit of a `w`-bit field (position 1 is the top bit,
/// position `w` the lowest).
pub open spec fn bit_of(v: u64, w: u64, pos: u64) -> u64
    recommends
        1 <= pos <= w <= 64,
{
    (v >> ((w - pos) as u64)) & 1
}

/// The value read off a `w`-bit field `v` at the 1-based positions listed
/// in `t`, first listed position giving the most significant output bit.
pub open spec fn perm_val(v: u64, t: Seq<u8>, w: u64) -> u64
    decreases t.len(),
{
    if t.len() == 0 {
        0u64
    } else {
        (perm_val(v, t.drop_last(), w) << 1u64) | bit_of(v, w, t.last() as u64)
    }
}

/// A single bit is zero or one.
proof fn lemma_bit_of_bound(v: u64, w: u64, pos: u64)
    by (bit_vector)
    ensures
        bit_of(v, w, pos) < 2,
{
}

/// A permutation of `n` positions yields an `n`-bit value.
pub proof fn lemma_perm_val_bound(v: u64, t: Seq<u8>, w: u64)
    requires
        t.len() < 64,
    ensures
        perm_val(v, t, w) < (1u64 << (t.len() as u64)),
    decreases t.len(),
{
    if t.len() == 0 {
        assert(0u64 < (1u64 << 0u64)) by (bit_vector);
    } else {
        lemma_perm_val_bound(v, t.drop_last(), w);
        lemma_bit_of_bound(v, w, t.last() as u64);
        let p = perm_val(v, t.drop_last(), w);
        let b = bit_of(v, w, t.last() as u64);
        let n = (t.len() - 1) as u64;
        assert(((p << 1u64) | b) < (1u64 << ((n + 1) as u64))) by (bit_vector)
            requires
                n < 63,
                p < (1u64 << n),
                b < 2,
        ;
    }
}

/// Output bit `j + 1` of a permuted value is input bit `t[j]`:
/// the table entry at an output position names the input bit that
/// lands there.
pub proof fn lemma_perm_val_bit(v: u64, t: Seq<u8>, w: u64, j: int)
    requires
        t.len() <= 64,
        0 <= j < t.len(),
    ensures
        bit_of(perm_val(v, t, w), t.len() as u64, (j + 1) as u64) == bit_of(v, w, t[j] as u64),
    decreases t.len(),
{
    let p = perm_val(v, t.drop_last(), w);
    let b = bit_of(v, w, t.last() as u64);
    let len = t.len() as u64;
    lemma_bit_of_bound(v, w, t.last() as u64);
    if j == t.len() - 1 {
        assert(bit_of((p << 1u64) | b, len, len) == b) by (bit_vector)
            requires
                1 <= len <= 64,
                b < 2,
        ;
    } else {
        lemma_perm_val_bit(v, t.drop_last(), w, j);
        let jj = j as u64;
        assert(bit_of((p << 1u64) | b, len, (jj + 1) as u64) == bit_of(p, (len - 1) as u64, (jj
            + 1) as u64)) by (bit_vector)
            requires
                2 <= len <= 64,
                jj < (len - 1) as u64,
                b < 2,
        ;
    }
}

/// Permuting by `t1` and then by `t2` reads the same bits as permuting
/// once by the composed table, whose entry at `j` is `t1[t2[j] - 1]`.
pub open spec fn compose_tables(t1: Seq<u8>, t2: Seq<u8>) -> Seq<u8> {
    Seq::new(t2.len(), |j: int| t1[t2[j] - 1])
}

pub proof fn lemma_perm_val_compose(v: u64, t1: Seq<u8>, t2: Seq<u8>, w: u64)
    requires
        1 <= t1.len() <= 64,
        table_in_range(t2, t1.len() as u64),
    ensures
        perm_val(perm_val(v, t1, w), t2, t1.len() as u64) == perm_val(
            v,
            compose_tables(t1, t2),
            w,
        ),
    decreases t2.len(),
{
    if t2.len() == 0 {
        assert(compose_tables(t1, t2) =~= Seq::<u8>::empty());
    } else {
        lemma_perm_val_compose(v, t1, t2.drop_last(), w);
        assert(compose_tables(t1, t2).drop_last() =~= compose_tables(t1, t2.drop_last()));
        lemma_perm_val_bit(v, t1, w, t2.last() - 1);
    }
}

/// Permuting a 64-bit value by a table that sends every position to
/// itself gives the value back.
proof fn lemma_perm_val_identity_prefix(v: u64, t: Seq<u8>, i: int)
    requires
        t.len() == 64,
        forall|j: int| 0 <= j < 64 ==> #[trigger] t[j] == j + 1,
        0 <= i <= 64,
    ensures
        perm_val(v, t.take(i), 64) == v >> ((64 - i) as u64),
    decreases i,
{
    if i == 0 {
        assert(t.take(0) =~= Seq::<u8>::empty());
        assert(v >> 64u64 == 0) by (bit_vector);
    } else {
        lemma_perm_val_identity_prefix(v, t, i - 1);
        assert(t.take(i).drop_last() =~= t.take(i - 1));
        let ii = i as u64;
        assert(((v >> ((64 - (ii - 1)) as u64)) << 1u64) | ((v >> ((64 - ii) as u64)) & 1) == v
            >> ((64 - ii) as u64)) by (bit_vector)
            requires
                1 <= ii <= 64,
        ;
    }
}

pub proof fn lemma_perm_val_identity(v: u64, t: Seq<u8>)
    requires
        t.len() == 64,
        forall|j: int| 0 <= j < 64 ==> #[trigger] t[j] == j + 1,
    ensures
        perm_val(v, t, 64) == v,
{
    lemma_perm_val_identity_prefix(v, t, 64);
    assert(t.take(64) =~= t);
    assert(v >> 0u64 == v) by (bit_vector);
}

/// Applying a 64-entry permutation table and then its inverse table
/// restores the input.
pub proof fn lemma_perm_val_inverse(v: u64, t1: Seq<u8>, t2: Seq<u8>)
    requires
        t1.len() == 64,
        t2.len() == 64,
        table_in_range(t2, 64),
        forall|i: int| 0 <= i < 64 ==> t1[#[trigger] t2[i] - 1] == i + 1,
    ensures
        perm_val(perm_val(v, t1, 64), t2, 64) == v,
{
    lemma_perm_val_compose(v, t1, t2, 64);
    let c = compose_tables(t1, t2);
    assert(forall|j: int| 0 <= j < 64 ==> #[trigger] c[j] == j + 1);
    lemma_perm_val_identity(v, c);
}

/// Reads the bits of `k` at the 1-based positions listed in
/// `permutation_vec` (counted from the most significant bit of the
/// `k_size`-bit field) and packs them into one value, first listed
/// position first.
pub fn permutate(k: u64, permutation_vec: &[u8], k_size: u8) -> (r: u64)
    requires
        1 <= k_size <= 64,
        k_size < 64 ==> k < (1u64 << (k_size as u64)),
        permutation_vec@.len() <= 64,
        table_in_range(permutation_vec@, k_size as u64),
    ensures
        r == perm_val(k, permutation_vec@, k_size as u64),
{
    let mut result: u64 = 0;
    let n = permutation_vec.len();
    for idx in 0..n
        invariant
            n == permutation_vec@.len(),
            n <= 64,
            1 <= k_size <= 64,
            table_in_range(permutation_vec@, k_size as u64),
            result == perm_val(k, permutation_vec@.take(idx as int), k_size as u64),
    {
        let bit_pos = permutation_vec[idx];
        let shift = (k_size - bit_pos) as u64;
        let input_bit = (k >> shift) & 1;
        result = (result << 1u64) | input_bit;
        proof {
            assert(permutation_vec@.take(idx + 1).drop_last() =~= permutation_vec@.take(
                idx as int,
            ));
        }
    }
    proof {
        assert(permutation_vec@.take(n as int) =~= permutation_vec@);
    }
    result
}

} // verus!
