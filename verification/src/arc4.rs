//! The alleged RC4 stream cipher: a swap-based 256-byte state that yields
//! one keystream byte per processed byte, with no block structure and no
//! rounds.
use vstd::prelude::*;

verus! {

/// The identity byte table that key scheduling starts from.
pub open spec fn init_s() -> Seq<u8> {
    Seq::new(256, |x: int| x as u8)
}

/// The table and the `j` cursor after the first `n` steps of key
/// scheduling: at step `i` the cursor advances by the table byte at `i`
/// plus the key byte at `i` (the key repeating when shorter than the
/// table), and the table entries at `i` and at the cursor change places.
pub open spec fn ksa_state(k: Seq<u8>, n: int) -> (Seq<u8>, u8)
    recommends
        k.len() > 0,
        0 <= n <= 256,
    decreases n,
{
    if n <= 0 {
        (init_s(), 0u8)
    } else {
        let prev = ksa_state(k, n - 1);
        let s = prev.0;
        let i = n - 1;
        let j = ((prev.1 + s[i] + k[i % (k.len() as int)]) % 256) as u8;
        (s.update(i, s[j as int]).update(j as int, s[i]), j)
    }
}

/// One step of the keystream generator: `i` advances by one, `j` by the
/// table byte at the new `i`, those two table entries change places, and
/// the keystream byte is the table entry at the sum of the two swapped
/// bytes.
pub open spec fn prga_step(s: Seq<u8>, i: u8, j: u8) -> (Seq<u8>, u8, u8, u8)
    recommends
        s.len() == 256,
{
    let i2 = (((i as int) + 1) % 256) as u8;
    let j2 = (((j + s[i2 as int]) as int) % 256) as u8;
    let s2 = s.update(i2 as int, s[j2 as int]).update(j2 as int, s[i2 as int]);
    let t = (((s2[i2 as int] + s2[j2 as int]) as int) % 256) as u8;
    (s2, i2, j2, s2[t as int])
}

/// The cipher state and the transformed bytes after the keystream is
/// applied to each byte of `data` in turn: byte `x` comes out as
/// `x xor k` for that step's keystream byte `k`.
pub open spec fn keystream_apply(s: Seq<u8>, i: u8, j: u8, data: Seq<u8>) -> (
    Seq<u8>,
    u8,
    u8,
    Seq<u8>,
)
    recommends
        s.len() == 256,
    decreases data.len(),
{
    if data.len() == 0 {
        (s, i, j, Seq::<u8>::empty())
    } else {
        let st = prga_step(s, i, j);
        let rest = keystream_apply(st.0, st.1, st.2, data.drop_first());
        (rest.0, rest.1, rest.2, seq![(data[0] ^ st.3)] + rest.3)
    }
}

/// Applying the keystream twice from equal starting states restores the
/// data: one and the same call both enciphers and deciphers.
pub proof fn lemma_keystream_round_trip(s: Seq<u8>, i: u8, j: u8, data: Seq<u8>)
    ensures
        keystream_apply(s, i, j, keystream_apply(s, i, j, data).3).3 == data,
    decreases data.len(),
{
    if data.len() > 0 {
        let st = prga_step(s, i, j);
        let rest = keystream_apply(st.0, st.1, st.2, data.drop_first());
        let once = keystream_apply(s, i, j, data);
        assert(once.3.drop_first() =~= rest.3);
        lemma_keystream_round_trip(st.0, st.1, st.2, data.drop_first());
        let b = data[0];
        let k = st.3;
        assert(((b ^ k) ^ k) == b) by (bit_vector);
        assert(seq![b] + keystream_apply(st.0, st.1, st.2, rest.3).3 =~= data);
    }
}

/// The alleged RC4 stream cipher.
pub struct AllegedRc4 {
    i: u8,
    j: u8,
    s: Vec<u8>,
}

impl View for AllegedRc4 {
    type V = (Seq<u8>, u8, u8);

    /// The internal byte table and the two cursors, in that order.
    closed spec fn view(&self) -> (Seq<u8>, u8, u8) {
        (self.s@, self.i, self.j)
    }
}

impl AllegedRc4 {
    #[verifier::type_invariant]
    spec fn wf(self) -> bool {
        self.s@.len() == 256
    }

    /// Runs the key scheduling over the whole table and sets both
    /// cursors to zero.  The key is only read here, never stored.
    pub fn new(k: &[u8]) -> (cipher: AllegedRc4)
        requires
            k@.len() > 0,
        ensures
            cipher@ == (ksa_state(k@, 256).0, 0u8, 0u8),
    {
        let mut s: Vec<u8> = Vec::new();
        for x in 0..256usize
            invariant
                s@.len() == x,
                forall|y: int| 0 <= y < x ==> #[trigger] s@[y] == y as u8,
        {
            s.push(x as u8);
        }
        proof {
            assert(s@ =~= init_s());
        }
        let klen = k.len();
        let mut j: u8 = 0;
        for i in 0..256usize
            invariant
                s@.len() == 256,
                k@.len() == klen,
                klen > 0,
                (s@, j) == ksa_state(k@, i as int),
        {
            let ti = k[i % klen];
            let si = s[i];
            j = j.wrapping_add(si).wrapping_add(ti);
            let sj = s[j as usize];
            s[i] = sj;
            s[j as usize] = si;
        }
        AllegedRc4 { i: 0, j: 0, s }
    }

    /// Generates one keystream byte, advancing the state one step, and
    /// returns the input byte XORed with it.
    #[verifier::rlimit(50)]
    pub fn process_byte(&mut self, pb: u8) -> (r: u8)
        ensures
            ({
                let st = prga_step(old(self)@.0, old(self)@.1, old(self)@.2);
                final(self)@ == (st.0, st.1, st.2) && r == (pb ^ st.3)
            }),
    {
        proof {
            use_type_invariant(&*self);
        }
        let ghost s_old = self.s@;
        let ghost i_old = self.i;
        let ghost j_old = self.j;
        self.i = self.i.wrapping_add(1);
        proof {
            assert(self.i == (((i_old as int) + 1) % 256) as u8);
        }
        self.j = self.j.wrapping_add(self.s[self.i as usize]);
        proof {
            assert(self.j == (((j_old + s_old[self.i as int]) as int) % 256) as u8);
        }
        let i = self.i as usize;
        let j = self.j as usize;
        let si = self.s[i];
        let sj = self.s[j];
        self.s[i] = sj;
        self.s[j] = si;
        proof {
            assert(self.s@ =~= s_old.update(i as int, s_old[j as int]).update(
                j as int,
                s_old[i as int],
            ));
        }
        let t = self.s[i].wrapping_add(self.s[j]);
        proof {
            assert(t == (((self.s@[i as int] + self.s@[j as int]) as int) % 256) as u8);
        }
        let k = self.s[t as usize];
        pb ^ k
    }

    /// Applies the keystream to the buffer in place.  The same call on
    /// an equally keyed cipher both enciphers and deciphers.
    pub fn apply_keystream(&mut self, buf: &mut Vec<u8>)
        ensures
            ({
                let full = keystream_apply(old(self)@.0, old(self)@.1, old(self)@.2, old(buf)@);
                final(self)@ == (full.0, full.1, full.2) && final(buf)@ == full.3
            }),
    {
        let ghost s0 = self@.0;
        let ghost i0 = self@.1;
        let ghost j0 = self@.2;
        let ghost data = buf@;
        let n = buf.len();
        proof {
            assert(data.skip(0) =~= data);
            assert(buf@.take(0) + keystream_apply(s0, i0, j0, data).3 =~= keystream_apply(
                s0,
                i0,
                j0,
                data,
            ).3);
        }
        for idx in 0..n
            invariant
                buf@.len() == n,
                data.len() == n,
                forall|y: int| idx <= y < n ==> #[trigger] buf@[y] == data[y],
                ({
                    let full = keystream_apply(s0, i0, j0, data);
                    let rem = keystream_apply(self@.0, self@.1, self@.2, data.skip(idx as int));
                    full.0 == rem.0 && full.1 == rem.1 && full.2 == rem.2 && full.3 == buf@.take(
                        idx as int,
                    ) + rem.3
                }),
        {
            let ghost pre_buf = buf@;
            let b = buf[idx];
            let r = self.process_byte(b);
            buf[idx] = r;
            proof {
                assert(data.skip(idx as int).drop_first() =~= data.skip(idx + 1));
                assert(buf@.take(idx + 1) =~= pre_buf.take(idx as int).push(r));
                assert(buf@.take(idx as int) =~= pre_buf.take(idx as int));
                assert(pre_buf.take(idx as int).push(r) + keystream_apply(
                    self@.0,
                    self@.1,
                    self@.2,
                    data.skip(idx + 1),
                ).3 =~= pre_buf.take(idx as int) + (seq![r] + keystream_apply(
                    self@.0,
                    self@.1,
                    self@.2,
                    data.skip(idx + 1),
                ).3));
            }
        }
        proof {
            assert(data.skip(n as int) =~= Seq::<u8>::empty());
            assert(buf@.take(n as int) =~= buf@);
            let full = keystream_apply(s0, i0, j0, data);
            assert(buf@ + Seq::<u8>::empty() =~= buf@);
        }
    }
}

} // verus!
