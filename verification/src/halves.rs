//! Splitting a value into equal-width halves, merging them back, and the
//! circular rotation of 28-bit half-keys used by the key schedule.
use vstd::prelude::*;

verus! {

/// The low 28 bits of a 56-bit key state.
pub const MASK_RIGHT_28_BIT: u64 = 0x0FFF_FFFF;

/// The high 28 bits of a 56-bit key state.
pub const MASK_LEFT_28_BIT: u64 = 0x00FF_FFFF_F000_0000;

/// The low 32 bits of a 64-bit block.
pub const MASK_RIGHT_32_BIT: u64 = 0xFFFF_FFFF;

/// The high 32 bits of a 64-bit block.
pub const MASK_LEFT_32_BIT: u64 = 0xFFFF_FFFF_0000_0000;

/// Two `h`-bit halves side by side: `l` in the high half, `r` in the low.
pub open spec fn merge_val(l: u64, r: u64, h: u64) -> u64 {
    (l << h) | r
}

/// Merges two halves, each of `half_size` bits, into one value of twice
/// that width, the first operand on the high side.
pub fn merge_halves(left: u64, right: u64, half_size: usize) -> (merged: u64)
    requires
        half_size <= 32,
        left < (1u64 << (half_size as u64)),
        right < (1u64 << (half_size as u64)),
    ensures
        merged == merge_val(left, right, half_size as u64),
{
    (left << half_size) | right
}

/// Merging two `h`-bit halves and then taking the high and low halves
/// of the result recovers the operands: merging inverts splitting.
pub proof fn lemma_merge_then_split(l: u64, r: u64, h: u64)
    by (bit_vector)
    requires
        h <= 32,
        l < (1u64 << h),
        r < (1u64 << h),
    ensures
        (merge_val(l, r, h) >> h) == l,
        (merge_val(l, r, h) & (((1u64 << h) - 1) as u64)) == r,
{
}

/// Splitting a `2 h`-bit value into its high and low `h`-bit halves and
/// merging them back restores it: splitting inverts merging.
pub proof fn lemma_split_then_merge(v: u64, h: u64)
    by (bit_vector)
    requires
        h <= 32,
        (v >> h) < (1u64 << h),
    ensures
        merge_val(v >> h, v & (((1u64 << h) - 1) as u64), h) == v,
{
}

/// One circular left rotation of a 28-bit value: the top bit wraps
/// around to the bottom.
pub open spec fn rotl28_once(k: u64) -> u64 {
    ((k << 1u64) & MASK_RIGHT_28_BIT) | ((k >> 27u64) & 1)
}

/// `n` circular left rotations of a 28-bit value.
pub open spec fn rotl28(k: u64, n: nat) -> u64
    decreases n,
{
    if n == 0 {
        k
    } else {
        rotl28_once(rotl28(k, (n - 1) as nat))
    }
}

/// A rotation of a 28-bit value stays within 28 bits.
proof fn lemma_rotl28_once_bound(k: u64)
    by (bit_vector)
    ensures
        rotl28_once(k) < (1u64 << 28u64),
{
}

/// Rotates the 28-bit value `k` left `n` times, wrapping the vacated
/// high bit into the low end each time.
pub fn rotate_left(k: u64, n: usize) -> (result: u64)
    requires
        k < (1u64 << 28u64),
    ensures
        result == rotl28(k, n as nat),
        result < (1u64 << 28u64),
{
    let mut result = k;
    for i in 0..n
        invariant
            result == rotl28(k, i as nat),
            result < (1u64 << 28u64),
    {
        let leading_bit = (result >> 27u64) & 1;
        let shifted = (result << 1u64) & MASK_RIGHT_28_BIT;
        proof {
            lemma_rotl28_once_bound(result);
        }
        result = shifted | leading_bit;
    }
    result
}

/// How far the two half-keys rotate in the given round: one position in
/// rounds 0, 1, 8 and 15, two positions in every other round.
pub open spec fn rotations_for_round(r: int) -> nat {
    if r == 0 || r == 1 || r == 8 || r == 15 {
        1
    } else {
        2
    }
}

/// The 56-bit key state after both of its 28-bit halves rotate by the
/// amount round `r` calls for.
pub open spec fn rotate_key_val(k: u64, r: int) -> u64 {
    let n = rotations_for_round(r);
    merge_val(
        rotl28((k & MASK_LEFT_28_BIT) >> 28u64, n),
        rotl28(k & MASK_RIGHT_28_BIT, n),
        28,
    )
}

/// Each half of a 56-bit value fits in 28 bits.
proof fn lemma_split28_bound(k: u64)
    by (bit_vector)
    ensures
        ((k & MASK_LEFT_28_BIT) >> 28u64) < (1u64 << 28u64),
        (k & MASK_RIGHT_28_BIT) < (1u64 << 28u64),
{
}

/// Two 28-bit halves merge into a 56-bit value.
proof fn lemma_merge28_bound(l: u64, r: u64)
    by (bit_vector)
    ensures
        l < (1u64 << 28u64) && r < (1u64 << 28u64) ==> merge_val(l, r, 28) < (1u64 << 56u64),
{
}

/// Rotates both 28-bit halves of the 56-bit key state `k` by one or two
/// positions depending on the round `r`, and merges them back.
pub fn rotate_key(k: u64, r: usize) -> (res: u64)
    requires
        r < 16,
    ensures
        res == rotate_key_val(k, r as int),
        res < (1u64 << 56u64),
{
    let rotations: usize = if matches!(r, 0 | 1 | 8 | 15) {
        1
    } else {
        2
    };
    proof {
        lemma_split28_bound(k);
    }
    let left = rotate_left((k & MASK_LEFT_28_BIT) >> 28, rotations);
    let right = rotate_left(k & MASK_RIGHT_28_BIT, rotations);
    proof {
        lemma_merge28_bound(left, right);
    }
    merge_halves(left, right, 28)
}

} // verus!
