//! Deterministic PRNG (xoshiro256**) whose seed is derived from the BLAKE3
//! digest of the run manifest: the same manifest always yields the same
//! random stream, and the workload never sees host entropy.

use vstd::prelude::*;
use crate::digest::{blake3_digest, blake3_hash};

verus! {

/// Rotation of a 64-bit word to the left by `k` bits, for `0 < k < 64`.
pub open spec fn rotl(x: u64, k: u64) -> u64 {
    (x << k) | (x >> ((64 - k) as u64))
}

/// Multiplication modulo 2^64.
pub open spec fn mul_wrap(x: u64, y: u64) -> u64 {
    vstd::wrapping::u64_specs::wrapping_mul(x, y)
}

/// The four words of a generator state.
pub type PrngState = (u64, u64, u64, u64);

/// The word that the generator yields from state `s` (the `**` scrambler).
pub open spec fn output(s: PrngState) -> u64 {
    mul_wrap(rotl(mul_wrap(s.1, 5), 7), 9)
}

/// The state that follows `s` (the xoshiro256 linear transition).
pub open spec fn step(s: PrngState) -> PrngState {
    let t = s.1 << 17u64;
    let s2 = s.2 ^ s.0;
    let s3 = s.3 ^ s.1;
    let s1 = s.1 ^ s2;
    let s0 = s.0 ^ s3;
    (s0, s1, s2 ^ t, rotl(s3, 45))
}

/// The state after `n` steps from `s`.
pub open spec fn state_after(s: PrngState, n: nat) -> PrngState
    decreases n,
{
    if n == 0 {
        s
    } else {
        state_after(step(s), (n - 1) as nat)
    }
}

/// The first `n` words generated from state `s`.
pub open spec fn stream(s: PrngState, n: nat) -> Seq<u64>
    decreases n,
{
    if n == 0 {
        Seq::empty()
    } else {
        seq![output(s)] + stream(step(s), (n - 1) as nat)
    }
}

/// Byte `j` (little-endian) of `x`.
pub open spec fn le_byte(x: u64, j: int) -> u8 {
    ((x >> ((8 * j) as u64)) & 0xff) as u8
}

/// The eight little-endian bytes of `x`.
pub open spec fn le_bytes(x: u64) -> Seq<u8> {
    Seq::new(8, |j: int| le_byte(x, j))
}

/// The word whose little-endian bytes are `b[off..off + 8]`.
pub open spec fn le_word(b: Seq<u8>, off: int) -> u64 {
    (b[off] as u64) | (b[off + 1] as u64) << 8u64 | (b[off + 2] as u64) << 16u64 | (b[off + 3]
        as u64) << 24u64 | (b[off + 4] as u64) << 32u64 | (b[off + 5] as u64) << 40u64 | (b[off
        + 6] as u64) << 48u64 | (b[off + 7] as u64) << 56u64
}

/// The generator state taken from a 32-byte seed (four little-endian words).
pub open spec fn seed_state(seed: Seq<u8>) -> PrngState {
    (le_word(seed, 0), le_word(seed, 8), le_word(seed, 16), le_word(seed, 24))
}

/// The generator state derived from manifest bytes.
pub open spec fn manifest_state(manifest: Seq<u8>) -> PrngState {
    seed_state(blake3_digest(manifest))
}

/// The first `n` bytes of the byte stream of state `s`: each generated word
/// contributes its eight little-endian bytes, the last one possibly cut short.
pub open spec fn stream_bytes(s: PrngState, n: nat) -> Seq<u8>
    decreases n,
{
    if n == 0 {
        Seq::empty()
    } else if n <= 8 {
        le_bytes(output(s)).take(n as int)
    } else {
        le_bytes(output(s)) + stream_bytes(step(s), (n - 8) as nat)
    }
}

/// Number of words consumed to produce `n` bytes.
pub open spec fn words_for(n: nat) -> nat {
    ((n + 7) / 8) as nat
}

/// Deterministic PRNG state using xoshiro256** seeded via BLAKE3.
#[derive(Debug, Clone)]
pub struct DeterministicPrng {
    state: [u64; 4],
}

impl View for DeterministicPrng {
    type V = PrngState;

    closed spec fn view(&self) -> PrngState {
        (self.state[0], self.state[1], self.state[2], self.state[3])
    }
}

fn rotate_left(x: u64, k: u32) -> (r: u64)
    requires
        0 < k < 64,
    ensures
        r == rotl(x, k as u64),
{
    (x << k) | (x >> (64 - k))
}

fn read_le_word(b: &[u8], off: usize) -> (w: u64)
    requires
        off + 8 <= b@.len(),
    ensures
        w == le_word(b@, off as int),
{
    (b[off] as u64) | (b[off + 1] as u64) << 8u64 | (b[off + 2] as u64) << 16u64 | (b[off + 3]
        as u64) << 24u64 | (b[off + 4] as u64) << 32u64 | (b[off + 5] as u64) << 40u64 | (b[off
        + 6] as u64) << 48u64 | (b[off + 7] as u64) << 56u64
}

impl DeterministicPrng {
    /// Create a new PRNG seeded from the BLAKE3 hash of the given manifest bytes.
    pub fn from_manifest(manifest_bytes: &[u8]) -> (r: Self)
        ensures
            r@ == manifest_state(manifest_bytes@),
    {
        let hash = blake3_hash(manifest_bytes);
        Self::from_seed(hash)
    }

    /// Create a PRNG from an explicit 32-byte seed.
    pub fn from_seed(seed: [u8; 32]) -> (r: Self)
        ensures
            r@ == seed_state(seed@),
    {
        let s: &[u8] = &seed;
        let state = [read_le_word(s, 0), read_le_word(s, 8), read_le_word(s, 16), read_le_word(s, 24)];
        Self { state }
    }

    /// Generate the next u64.
    pub fn next_u64(&mut self) -> (r: u64)
        ensures
            r == output(old(self)@),
            final(self)@ == step(old(self)@),
    {
        let result = rotate_left(self.state[1].wrapping_mul(5), 7).wrapping_mul(9);
        let t = self.state[1] << 17u32;
        self.state[2] = self.state[2] ^ self.state[0];
        self.state[3] = self.state[3] ^ self.state[1];
        self.state[1] = self.state[1] ^ self.state[2];
        self.state[0] = self.state[0] ^ self.state[3];
        self.state[2] = self.state[2] ^ t;
        self.state[3] = rotate_left(self.state[3], 45);
        result
    }

    /// Fill a buffer with deterministic random bytes: the buffer receives the
    /// first `buf.len()` bytes of the byte stream, and one word is consumed
    /// per started group of eight bytes.
    pub fn fill_bytes(&mut self, buf: &mut [u8])
        ensures
            final(buf)@ == stream_bytes(old(self)@, old(buf)@.len()),
            final(self)@ == state_after(old(self)@, words_for(old(buf)@.len())),
    {
        let ghost s0 = self@;
        let ghost mut k: nat = 0;
        let len = buf.len();
        let mut i: usize = 0;
        while i < len
            invariant
                len == buf@.len(),
                len == old(buf)@.len(),
                i <= len,
                i < len ==> i == 8 * k,
                k == words_for(i as nat),
                buf@.subrange(0, i as int) == stream_bytes(s0, i as nat),
                self@ == state_after(s0, k),
            decreases len - i,
        {
            let ghost sk = self@;
            let val = self.next_u64();
            let remaining = len - i;
            let to_copy = if remaining < 8 { remaining } else { 8 };
            let ghost prefix = buf@.subrange(0, i as int);
            let mut j: usize = 0;
            while j < to_copy
                invariant
                    len == buf@.len(),
                    i + to_copy <= len,
                    to_copy <= 8,
                    j <= to_copy,
                    buf@.subrange(0, i as int) == prefix,
                    forall|q: int| 0 <= q < j ==> buf@[i + q] == le_byte(val, q),
                decreases to_copy - j,
            {
                let sh: u64 = 8 * (j as u64);
                buf[i + j] = ((val >> sh) & 0xff) as u8;
                j = j + 1;
            }
            proof {
                lemma_stream_bytes_split(s0, k, to_copy as nat);
                assert(state_after(s0, k) == sk);
                assert(stream_bytes(sk, to_copy as nat) =~= le_bytes(val).take(to_copy as int));
                assert(buf@.subrange(0, (i + to_copy) as int) =~= prefix + le_bytes(val).take(
                    to_copy as int,
                ));
                lemma_state_after_succ(s0, k);
                k = k + 1;
            }
            i = i + to_copy;
        }
        proof {
            assert(buf@.subrange(0, len as int) =~= buf@);
        }
    }
}


/// One more step after `n` steps is `n + 1` steps.
pub proof fn lemma_state_after_succ(s: PrngState, n: nat)
    ensures
        state_after(s, n + 1) == step(state_after(s, n)),
    decreases n,
{
    if n > 0 {
        lemma_state_after_succ(step(s), (n - 1) as nat);
    } else {
        assert(state_after(s, 1) == state_after(step(s), 0));
    }
}

/// Law: filling `8 * k + m` bytes at once gives the same bytes as filling
/// `8 * k` bytes and then `m` more bytes from the state reached after `k`
/// words, so the byte stream does not depend on how it is requested in
/// whole-word chunks.
pub proof fn lemma_stream_bytes_split(s: PrngState, k: nat, m: nat)
    ensures
        stream_bytes(s, 8 * k + m) == stream_bytes(s, 8 * k) + stream_bytes(state_after(s, k), m),
    decreases k,
{
    if k == 0 {
        assert(stream_bytes(s, 0) == Seq::<u8>::empty());
        assert(stream_bytes(s, m) == Seq::<u8>::empty() + stream_bytes(s, m));
    } else {
        let k1 = (k - 1) as nat;
        lemma_stream_bytes_split(step(s), k1, m);
        if k1 == 0 && m == 0 {
            assert(stream_bytes(step(s), 0) == Seq::<u8>::empty());
            assert(stream_bytes(s, 8 * k + m) =~= stream_bytes(s, 8 * k) + stream_bytes(
                state_after(s, k),
                m,
            ));
        } else {
            assert(8 * k + m > 8);
            assert((8 * k + m - 8) as nat == 8 * k1 + m);
            if k1 == 0 {
                assert(stream_bytes(s, 8) == le_bytes(output(s)).take(8));
                assert(le_bytes(output(s)).take(8) =~= le_bytes(output(s)));
                assert(stream_bytes(step(s), 0) == Seq::<u8>::empty());
            } else {
                assert((8 * k - 8) as nat == 8 * k1);
            }
            assert(stream_bytes(s, 8 * k) =~= le_bytes(output(s)) + stream_bytes(step(s), 8 * k1));
            assert(stream_bytes(s, 8 * k + m) =~= le_bytes(output(s)) + stream_bytes(
                step(s),
                8 * k1 + m,
            ));
        }
    }
}

/// The little-endian bytes of the words in `ws`, one after the other.
pub open spec fn words_le_bytes(ws: Seq<u64>) -> Seq<u8>
    decreases ws.len(),
{
    if ws.len() == 0 {
        Seq::empty()
    } else {
        le_bytes(ws[0]) + words_le_bytes(ws.drop_first())
    }
}

/// Law: the first `8 * k` bytes of the byte stream are the little-endian
/// bytes of the first `k` words that `next_u64` yields.
pub proof fn lemma_stream_bytes_are_words(s: PrngState, k: nat)
    ensures
        stream_bytes(s, 8 * k) == words_le_bytes(stream(s, k)),
    decreases k,
{
    if k > 0 {
        let k1 = (k - 1) as nat;
        lemma_stream_bytes_are_words(step(s), k1);
        lemma_stream_bytes_split(s, 1, 8 * k1);
        assert(8 * 1 + 8 * k1 == 8 * k);
        assert(stream_bytes(s, 8) =~= le_bytes(output(s)));
        assert(state_after(s, 1) == state_after(step(s), 0));
        let ws = stream(s, k);
        assert(ws[0] == output(s));
        assert(ws.drop_first() =~= stream(step(s), k1));
    } else {
        assert(stream(s, 0) == Seq::<u64>::empty());
    }
}

/// Law: `k` successive `next_u64` calls, each yielding the `output` of the
/// state it starts from and moving it one `step` on (as `next_u64` states),
/// yield the first `k` words of the stream of the first state, the `i`-th
/// being the output of the state `i` steps on, and leave the generator `k`
/// steps on. With `from_seed` that first state is `seed_state(seed)`.
pub proof fn lemma_calls_follow_stream(states: Seq<PrngState>, outputs: Seq<u64>)
    requires
        states.len() == outputs.len() + 1,
        forall|i: int|
            0 <= i < outputs.len() ==> #[trigger] outputs[i] == output(states[i]) && states[i + 1]
                == step(states[i]),
    ensures
        outputs == stream(states[0], outputs.len()),
        states.last() == state_after(states[0], outputs.len()),
        forall|i: int|
            0 <= i < outputs.len() ==> #[trigger] outputs[i] == output(state_after(states[0], i as nat)),
    decreases outputs.len(),
{
    let k = outputs.len();
    if k == 0 {
        assert(outputs =~= stream(states[0], 0));
    } else {
        let st = states.drop_first();
        let os = outputs.drop_first();
        assert forall|i: int| 0 <= i < os.len() implies #[trigger] os[i] == output(st[i])
            && st[i + 1] == step(st[i]) by {
            assert(os[i] == outputs[i + 1]);
            assert(st[i] == states[i + 1]);
            assert(st[i + 1] == states[i + 2]);
        }
        lemma_calls_follow_stream(st, os);
        assert(outputs[0] == output(states[0]));
        assert(st[0] == step(states[0]));
        assert(outputs =~= seq![output(states[0])] + os);
        assert(st.last() == states.last());
        assert forall|i: int| 0 <= i < k implies #[trigger] outputs[i] == output(
            state_after(states[0], i as nat),
        ) by {
            if i > 0 {
                assert(outputs[i] == os[i - 1]);
                assert(os[i - 1] == output(state_after(st[0], (i - 1) as nat)));
            }
        }
    }
}

/// Law: a generator's stream is a function of its manifest alone: two
/// generators made from equal manifest bytes produce the same words.
pub proof fn lemma_same_manifest_same_stream(m1: Seq<u8>, m2: Seq<u8>, n: nat)
    requires
        m1 == m2,
    ensures
        stream(manifest_state(m1), n) == stream(manifest_state(m2), n),
{
}

} // verus!
