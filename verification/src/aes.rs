//! The stub of a variable-key-size block cipher: only the validation of
//! the key size is in place.  The key arrives as eight 32-bit chunks with
//! the effective key right-aligned; leading all-zero chunks are padding.
use vstd::prelude::*;

verus! {

/// The number of leading all-zero 32-bit chunks of the key.
pub open spec fn head_index(key: Seq<u32>) -> int
    decreases key.len(),
{
    if key.len() == 0 {
        0
    } else if key[0] != 0 {
        0
    } else {
        1 + head_index(key.drop_first())
    }
}

/// `head_index` names the first non-zero chunk: everything before it is
/// zero, and the chunk there is non-zero unless the whole key is zero.
proof fn lemma_head_index(key: Seq<u32>)
    ensures
        0 <= head_index(key) <= key.len(),
        forall|x: int| 0 <= x < head_index(key) ==> key[x] == 0,
        head_index(key) < key.len() ==> key[head_index(key)] != 0,
    decreases key.len(),
{
    if key.len() > 0 && key[0] == 0 {
        lemma_head_index(key.drop_first());
        assert forall|x: int| 0 <= x < head_index(key) implies key[x] == 0 by {
            if x > 0 {
                assert(key[x] == key.drop_first()[x - 1]);
            }
        }
    }
}

/// A variable-key-size block cipher, not yet carried further than the
/// validation of its key size.
#[derive(Debug)]
pub struct Aes {}

impl Aes {
    /// Accepts a `key` split into 32-bit chunks whose effective part
    /// must be 128, 192 or 256 bits: the first non-zero chunk has to sit
    /// at index 0, 2 or 4.  An all-zero key is rejected as empty.
    pub fn new(key: [u32; 8]) -> (r: Result<Aes, &'static str>)
        ensures
            ({
                let h = head_index(key@);
                match r {
                    Result::Ok(_) => h == 0 || h == 2 || h == 4,
                    Result::Err(e) => !(h == 0 || h == 2 || h == 4) && (if h == 8 {
                        e@ == "key cannot be empty"@
                    } else {
                        e@ == "key size must be 128, 192 or 256 bits"@
                    }),
                }
            }),
    {
        proof {
            lemma_head_index(key@);
        }
        let mut head: usize = 0;
        while head < 8 && key[head] == 0
            invariant
                0 <= head <= 8,
                forall|x: int| 0 <= x < head ==> key@[x] == 0,
            decreases 8 - head,
        {
            head += 1;
        }
        proof {
            assert(head == head_index(key@));
        }
        if head == 8 {
            return Err("key cannot be empty");
        }
        if !matches!(head, 0 | 2 | 4) {
            return Err("key size must be 128, 192 or 256 bits");
        }
        Ok(Aes {})
    }
}

} // verus!
