//! The DES round function: expand a 32-bit half-block to 48 bits, mix in
//! the round subkey, substitute eight 6-bit chunks through the S-boxes,
//! and compress the result back to 32 bits.
use vstd::prelude::*;

use crate::perm::{lemma_perm_val_bound, perm_val, permutate};
use crate::tables::{lemma_sboxes_in_range, lemma_tables_in_range, E, P, S};

verus! {

/// The 4-bit output the box gives for a 6-bit chunk: the outer two bits
/// (first and last) select the row, the middle four bits the column, and
/// the box is laid out row-major.
pub open spec fn sub_val(chunk: u64, sbox: Seq<u8>) -> u64
    recommends
        chunk < 64,
        sbox.len() == 64,
{
    let row = ((chunk >> 4u64) & 0b10) | (chunk & 1);
    let col = (chunk & 0b11111) >> 1u64;
    sbox[(16 * row + col) as int] as u64
}

/// The row is one of four, the column one of sixteen.
proof fn lemma_rowcol_bound(chunk: u64)
    by (bit_vector)
    ensures
        (((chunk >> 4u64) & 0b10) | (chunk & 1)) < 4,
        ((chunk & 0b11111) >> 1u64) < 16,
{
}

/// A substituted chunk is a 4-bit value.
proof fn lemma_sub_val_bound(chunk: u64, sbox: Seq<u8>)
    requires
        sbox.len() == 64,
        forall|j: int| 0 <= j < 64 ==> #[trigger] sbox[j] < 16,
    ensures
        sub_val(chunk, sbox) < 16,
{
    lemma_rowcol_bound(chunk);
}

/// For a given 6-bit `chunk` returns the 4-bit output of the `s_box`.
pub fn substitute(chunk: u64, s_box: &[u8; 64]) -> (r: u64)
    requires
        chunk < 64,
    ensures
        r == sub_val(chunk, s_box@),
{
    proof {
        lemma_rowcol_bound(chunk);
    }
    let row = ((chunk >> 4) & 0b10) | (chunk & 1);
    let col = (chunk & 0b11111) >> 1;
    s_box[(16 * row + col) as usize] as u64
}

/// Chunk `i` of a 48-bit value: its bits at 1-based positions
/// `6 i + 1 ..= 6 i + 6`, leftmost chunk first.
pub open spec fn chunk6_val(block: u64, i: int) -> u64
    recommends
        0 <= i < 8,
{
    (block >> ((42 - 6 * i) as u64)) & 0b111111
}

/// Six masked bits fit in six bits.
proof fn lemma_chunk6_bound(x: u64, s: u64)
    by (bit_vector)
    ensures
        ((x >> s) & 0b111111) < 64,
{
}

/// Splits a 48-bit value into eight 6-bit chunks, leftmost first.
pub fn split_6bit_chunks(block: u64) -> (chunks: [u64; 8])
    ensures
        forall|i: int| 0 <= i < 8 ==> #[trigger] chunks@[i] == chunk6_val(block, i),
        forall|i: int| 0 <= i < 8 ==> #[trigger] chunks@[i] < 64,
{
    proof {
        lemma_chunk6_bound(block, 42);
        lemma_chunk6_bound(block, 36);
        lemma_chunk6_bound(block, 30);
        lemma_chunk6_bound(block, 24);
        lemma_chunk6_bound(block, 18);
        lemma_chunk6_bound(block, 12);
        lemma_chunk6_bound(block, 6);
        lemma_chunk6_bound(block, 0);
    }
    [
        (block >> 42) & 0b111111,
        (block >> 36) & 0b111111,
        (block >> 30) & 0b111111,
        (block >> 24) & 0b111111,
        (block >> 18) & 0b111111,
        (block >> 12) & 0b111111,
        (block >> 6) & 0b111111,
        (block >> 0) & 0b111111,
    ]
}

/// Eight 4-bit chunks side by side, first chunk highest.
pub open spec fn merge4_val(c: Seq<u64>) -> u64
    recommends
        c.len() == 8,
{
    (c[0] << 28u64) | (c[1] << 24u64) | (c[2] << 20u64) | (c[3] << 16u64) | (c[4] << 12u64) | (
    c[5] << 8u64) | (c[6] << 4u64) | c[7]
}

/// Eight 4-bit chunks merge into a 32-bit value.
proof fn lemma_merge4_bound(
    c0: u64,
    c1: u64,
    c2: u64,
    c3: u64,
    c4: u64,
    c5: u64,
    c6: u64,
    c7: u64,
)
    by (bit_vector)
    ensures
        c0 < 16 && c1 < 16 && c2 < 16 && c3 < 16 && c4 < 16 && c5 < 16 && c6 < 16 && c7 < 16
            ==> ((c0 << 28u64) | (c1 << 24u64) | (c2 << 20u64) | (c3 << 16u64) | (c4 << 12u64) | (
        c5 << 8u64) | (c6 << 4u64) | c7) < (1u64 << 32u64),
{
}

/// Merges eight 4-bit chunks into one 32-bit value, first chunk highest.
pub fn merge_4bit_chunks(chunks: [u64; 8]) -> (merged: u64)
    requires
        forall|i: int| 0 <= i < 8 ==> #[trigger] chunks@[i] < 16,
    ensures
        merged == merge4_val(chunks@),
        merged < (1u64 << 32u64),
{
    proof {
        lemma_merge4_bound(
            chunks@[0],
            chunks@[1],
            chunks@[2],
            chunks@[3],
            chunks@[4],
            chunks@[5],
            chunks@[6],
            chunks@[7],
        );
    }
    (chunks[0] << 28) | (chunks[1] << 24) | (chunks[2] << 20) | (chunks[3] << 16) | (chunks[4]
        << 12) | (chunks[5] << 8) | (chunks[6] << 4) | chunks[7]
}

/// The round function: the expanded half-block is mixed with the subkey,
/// each 6-bit chunk goes through its own S-box, and the packed 4-bit
/// outputs are permuted once more.
pub open spec fn f_val(right: u64, round_key: u64) -> u64 {
    let expanded = perm_val(right, E@, 32);
    let keyed = expanded ^ round_key;
    let merged = merge4_val(Seq::new(8, |i: int| sub_val(chunk6_val(keyed, i), S@[i]@)));
    perm_val(merged, P@, 32)
}

/// The round function yields a 32-bit value.
pub proof fn lemma_f_val_bound(right: u64, round_key: u64)
    ensures
        f_val(right, round_key) < (1u64 << 32u64),
{
    let expanded = perm_val(right, E@, 32);
    let keyed = expanded ^ round_key;
    let merged = merge4_val(Seq::new(8, |i: int| sub_val(chunk6_val(keyed, i), S@[i]@)));
    lemma_perm_val_bound(merged, P@, 32);
}

/// Applies the round function `f` to a 32-bit half-block using the given
/// 48-bit round subkey.
pub fn apply_f(right: u64, round_key: u64) -> (out: u64)
    requires
        right < (1u64 << 32u64),
    ensures
        out == f_val(right, round_key),
        out < (1u64 << 32u64),
{
    proof {
        lemma_tables_in_range();
        lemma_sboxes_in_range();
    }
    let expanded: u64 = permutate(right, E.as_slice(), 32);
    let keyed: u64 = expanded ^ round_key;
    let chunks: [u64; 8] = split_6bit_chunks(keyed);
    let subbed: [u64; 8] = [
        substitute(chunks[0], &S[0]),
        substitute(chunks[1], &S[1]),
        substitute(chunks[2], &S[2]),
        substitute(chunks[3], &S[3]),
        substitute(chunks[4], &S[4]),
        substitute(chunks[5], &S[5]),
        substitute(chunks[6], &S[6]),
        substitute(chunks[7], &S[7]),
    ];
    proof {
        lemma_sub_val_bound(chunk6_val(keyed, 0), S@[0]@);
        lemma_sub_val_bound(chunk6_val(keyed, 1), S@[1]@);
        lemma_sub_val_bound(chunk6_val(keyed, 2), S@[2]@);
        lemma_sub_val_bound(chunk6_val(keyed, 3), S@[3]@);
        lemma_sub_val_bound(chunk6_val(keyed, 4), S@[4]@);
        lemma_sub_val_bound(chunk6_val(keyed, 5), S@[5]@);
        lemma_sub_val_bound(chunk6_val(keyed, 6), S@[6]@);
        lemma_sub_val_bound(chunk6_val(keyed, 7), S@[7]@);
        assert(subbed@ =~= Seq::new(8, |i: int| sub_val(chunk6_val(keyed, i), S@[i]@)));
    }
    let merged_32bit: u64 = merge_4bit_chunks(subbed);
    proof {
        lemma_perm_val_bound(merged_32bit, P@, 32);
    }
    permutate(merged_32bit, P.as_slice(), 32)
}

} // verus!
