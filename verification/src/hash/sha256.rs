//! SHA-256 (FIPS 180-4).

mod magic_numbers;
pub mod spec;

use self::magic_numbers::{INITIAL_VALUE, K};
use self::spec::{
    be_word, block, block_words, compress, digest_bytes, hash_blocks, lemma_padded_blocks,
    padded, padding, rounds, schedule, schedule_word, sha256, spec_big_sigma_0, spec_big_sigma_1,
    spec_ch, spec_little_sigma_0, spec_little_sigma_1, spec_maj, spec_rotr, word_byte, working_of,
    zero_count, be_u64_bytes,
};
use vstd::prelude::*;

verus! {

/// ROTR^n(x).
fn rotate_right(x: u32, n: u32) -> (r: u32)
    requires
        0 < n < 32,
    ensures
        r == spec_rotr(x, n),
{
    (x >> n) | (x << (32 - n))
}

/// SHA256 primitive
pub fn ch(x: u32, y: u32, z: u32) -> (r: u32)
    ensures
        r == spec_ch(x, y, z),
{
    (x & y) ^ (!x & z)
}

/// SHA256 primitive
pub fn maj(x: u32, y: u32, z: u32) -> (r: u32)
    ensures
        r == spec_maj(x, y, z),
{
    (x & y) ^ (x & z) ^ (y & z)
}

/// SHA256 primitive
pub fn big_sigma_0(x: u32) -> (r: u32)
    ensures
        r == spec_big_sigma_0(x),
{
    rotate_right(x, 2) ^ rotate_right(x, 13) ^ rotate_right(x, 22)
}

/// SHA256 primitive
pub fn big_sigma_1(x: u32) -> (r: u32)
    ensures
        r == spec_big_sigma_1(x),
{
    rotate_right(x, 6) ^ rotate_right(x, 11) ^ rotate_right(x, 25)
}

/// SHA256 primitive
pub fn little_sigma_0(x: u32) -> (r: u32)
    ensures
        r == spec_little_sigma_0(x),
{
    rotate_right(x, 7) ^ rotate_right(x, 18) ^ (x >> 3)
}

/// SHA256 primitive
pub fn little_sigma_1(x: u32) -> (r: u32)
    ensures
        r == spec_little_sigma_1(x),
{
    rotate_right(x, 17) ^ rotate_right(x, 19) ^ (x >> 10)
}

/// Hash some bytes with SHA256; output is a string of bytes, always big endian.
pub fn hash(input: &[u8]) -> (digest: [u8; 32])
    requires
        input@.len() * 8 <= usize::MAX,
    ensures
        digest@ == sha256(input@),
{
    let mut state: HashState = HashState::new();
    let ghost m = padded(input@);
    let ghost len = input@.len();
    let ghost pad = padding(len);
    proof {
        lemma_padded_blocks(input@);
    }
    let full_blocks = input.len() / 64;
    assert(64 * full_blocks <= input@.len());

    for i in 0..full_blocks
        invariant
            full_blocks == input@.len() / 64,
            64 * full_blocks <= input@.len() <= usize::MAX,
            m == padded(input@),
            forall|b: nat|
                b < input@.len() / 64 ==> #[trigger] block(m, b) == input@.subrange(
                    64 * b as int,
                    64 * b as int + 64,
                ),
            state.result@ == hash_blocks(INITIAL_VALUE@, m, i as nat),
    {
        let chunk_u8 = &input[64 * i..64 * i + 64];
        assert(chunk_u8@ == block(m, i as nat));
        state.update(&make_16xu32s_from_64xu8s(chunk_u8));
    }

    // Now the remaining bytes, plus whatever padding we need: at most two more blocks.
    let start = full_blocks * 64;
    let remainder_len = input.len() - start;
    let (padding_bytes, padding_byte_count) = get_padding_bytes(input.len() * 8);
    assert((len * 8) / 8 == len);
    assert(padding_bytes@.subrange(0, padding_byte_count as int) == pad);

    let mut last_chunk_u8: [u8; 64] = [0; 64];
    for k in 0..remainder_len
        invariant
            start + remainder_len == input@.len() <= usize::MAX,
            remainder_len < 64,
            forall|j: int| 0 <= j < k ==> last_chunk_u8[j] == input@[start + j],
    {
        last_chunk_u8[k] = input[start + k];
    }
    let bytes_of_padding_required: usize = 64 - remainder_len;
    for k in remainder_len..64
        invariant
            start + remainder_len == input@.len(),
            remainder_len < 64,
            forall|j: int| 0 <= j < remainder_len ==> last_chunk_u8[j] == input@[start + j],
            forall|j: int|
                remainder_len <= j < k ==> last_chunk_u8[j] == padding_bytes[j - remainder_len],
    {
        last_chunk_u8[k] = padding_bytes[k - remainder_len];
    }
    assert(last_chunk_u8@ =~= block(m, full_blocks as nat));
    state.update(&make_16xu32s_from_64xu8s(last_chunk_u8.as_slice()));
    assert(state.result@ == hash_blocks(INITIAL_VALUE@, m, full_blocks as nat + 1));

    if padding_byte_count > bytes_of_padding_required {
        for k in 0..64
            invariant
                bytes_of_padding_required + 64 <= 72,
                forall|j: int|
                    0 <= j < k ==> last_chunk_u8[j] == padding_bytes[bytes_of_padding_required + j],
        {
            last_chunk_u8[k] = padding_bytes[bytes_of_padding_required + k];
        }
        assert(last_chunk_u8@ =~= block(m, (full_blocks + 1) as nat));
        state.update(&make_16xu32s_from_64xu8s(last_chunk_u8.as_slice()));
        assert(state.result@ == hash_blocks(INITIAL_VALUE@, m, full_blocks as nat + 2));
    }

    state.result_bytes()
}

/// Returns a 72-byte array filled with padding bytes, and a length which is the number of bytes
/// of that array that you will need. The remaining bytes are set to 0x00. The padding of a
/// message is up to 72 bytes long.
pub fn get_padding_bytes(input_length_in_bits: usize) -> (out: ([u8; 72], usize))
    requires
        input_length_in_bits % 8 == 0,
    ensures
        out.1 == padding((input_length_in_bits / 8) as nat).len(),
        out.0@.subrange(0, out.1 as int) == padding((input_length_in_bits / 8) as nat),
        forall|i: int| out.1 <= i < 72 ==> out.0[i] == 0,
        (out.1 * 8 + input_length_in_bits) % 512 == 0,
{
    let mut output: [u8; 72] = [0; 72];
    output[0] = 0x80;

    // number of zeros to get to a multiple of 512 bits total length, given
    // we have to add a 1 and the length of the message in bits, as a big-endian
    // u64.
    let input_length_mod_512 = input_length_in_bits % 512;
    let number_of_zeros: usize = 447 + if input_length_mod_512 > 447 {
        512
    } else {
        0
    } - input_length_mod_512;

    let number_of_padding_bytes: usize = ((number_of_zeros + 1) / 8) + 8;

    let bits: u64 = input_length_in_bits as u64;
    output[number_of_padding_bytes - 8] = (#[verifier::truncate] ((bits >> 56u64) as u8));
    output[number_of_padding_bytes - 7] = (#[verifier::truncate] ((bits >> 48u64) as u8));
    output[number_of_padding_bytes - 6] = (#[verifier::truncate] ((bits >> 40u64) as u8));
    output[number_of_padding_bytes - 5] = (#[verifier::truncate] ((bits >> 32u64) as u8));
    output[number_of_padding_bytes - 4] = (#[verifier::truncate] ((bits >> 24u64) as u8));
    output[number_of_padding_bytes - 3] = (#[verifier::truncate] ((bits >> 16u64) as u8));
    output[number_of_padding_bytes - 2] = (#[verifier::truncate] ((bits >> 8u64) as u8));
    output[number_of_padding_bytes - 1] = (#[verifier::truncate] (bits as u8));

    proof {
        let len = (input_length_in_bits / 8) as nat;
        let n = number_of_padding_bytes as int;
        assert(input_length_mod_512 == 8 * (len % 64));
        assert(n == 1 + zero_count(len) + 8);
        assert(((len * 8) as u64) == bits);
        let p = padding(len);
        assert(p.len() == n);
        assert forall|i: int| 0 <= i < n implies output[i] == p[i] by {
            if i == 0 {
            } else if i < n - 8 {
                assert(p[i] == 0);
            } else {
                assert(p[i] == be_u64_bytes(bits)[i - (n - 8)]);
            }
        }
        assert(output@.subrange(0, n) =~= p);
    }
    (output, number_of_padding_bytes)
}

/// The word whose big-endian bytes are `b0 b1 b2 b3`.
fn u32_from_be_bytes(b0: u8, b1: u8, b2: u8, b3: u8) -> (r: u32)
    ensures
        r == be_word(b0, b1, b2, b3),
{
    ((b0 as u32) << 24u32) | ((b1 as u32) << 16u32) | ((b2 as u32) << 8u32) | (b3 as u32)
}

/// The sixteen big-endian words of a 64-byte block.
pub fn make_16xu32s_from_64xu8s(u8s: &[u8]) -> (words: [u32; 16])
    requires
        u8s@.len() == 64,
    ensures
        words@ == block_words(u8s@),
{
    let mut words: [u32; 16] = [0; 16];
    for i in 0..16
        invariant
            u8s@.len() == 64,
            forall|k: int| 0 <= k < i ==> words[k] == #[trigger] block_words(u8s@)[k],
    {
        words[i] = u32_from_be_bytes(u8s[4 * i], u8s[4 * i + 1], u8s[4 * i + 2], u8s[4 * i + 3]);
    }
    assert(words@ =~= block_words(u8s@));
    words
}

/// The state of a SHA-256 computation in progress: the hash value so far, and room
/// for the message schedule of the block being processed.
#[derive(Copy, Clone)]
pub struct HashState {
    pub result: [u32; 8],
    pub message_schedule: [u32; 64],
}

impl HashState {
    /// A state that has processed no block yet.
    pub fn new() -> (s: HashState)
        ensures
            s.result@ == INITIAL_VALUE@,
            s.message_schedule@ == Seq::new(64, |i: int| 0u32),
    {
        let s = HashState { result: INITIAL_VALUE, message_schedule: [0; 64] };
        assert(s.message_schedule@ =~= Seq::new(64, |i: int| 0u32));
        s
    }

    /// Processes one block, given as its sixteen big-endian words.
    pub fn update(&mut self, chunk: &[u32; 16])
        ensures
            final(self).result@ == compress(old(self).result@, chunk@),
            final(self).message_schedule@ == schedule(chunk@),
    {
        let mut a: u32 = self.result[0];
        let mut b: u32 = self.result[1];
        let mut c: u32 = self.result[2];
        let mut d: u32 = self.result[3];
        let mut e: u32 = self.result[4];
        let mut f: u32 = self.result[5];
        let mut g: u32 = self.result[6];
        let mut h: u32 = self.result[7];
        let ghost h0 = self.result@;
        let ghost w = schedule(chunk@);

        for j in 0..16
            invariant
                self.result@ == h0,
                forall|k: int| 0 <= k < j ==> self.message_schedule[k] == chunk[k],
        {
            self.message_schedule[j] = chunk[j];
        }

        // Stretching our input across the message schedule
        for j in 16..64
            invariant
                self.result@ == h0,
                forall|k: int| 0 <= k < j ==> self.message_schedule[k] == schedule_word(chunk@, k as nat),
        {
            let v = little_sigma_1(self.message_schedule[j - 2]).wrapping_add(
                self.message_schedule[j - 7],
            ).wrapping_add(little_sigma_0(self.message_schedule[j - 15])).wrapping_add(
                self.message_schedule[j - 16],
            );
            self.message_schedule[j] = v;
        }

        // 64 rounds of mixing
        for j in 0..64
            invariant
                self.result@ == h0,
                forall|k: int| 0 <= k < 64 ==> self.message_schedule[k] == #[trigger] w[k],
                (a, b, c, d, e, f, g, h) == rounds(working_of(h0), w, j as nat),
        {
            let t1 = h.wrapping_add(big_sigma_1(e)).wrapping_add(ch(e, f, g)).wrapping_add(
                K[j],
            ).wrapping_add(self.message_schedule[j]);
            let t2 = big_sigma_0(a).wrapping_add(maj(a, b, c));
            h = g;
            g = f;
            f = e;
            e = d.wrapping_add(t1);
            d = c;
            c = b;
            b = a;
            a = t1.wrapping_add(t2);
        }

        // Store the results
        self.result[0] = a.wrapping_add(self.result[0]);
        self.result[1] = b.wrapping_add(self.result[1]);
        self.result[2] = c.wrapping_add(self.result[2]);
        self.result[3] = d.wrapping_add(self.result[3]);
        self.result[4] = e.wrapping_add(self.result[4]);
        self.result[5] = f.wrapping_add(self.result[5]);
        self.result[6] = g.wrapping_add(self.result[6]);
        self.result[7] = h.wrapping_add(self.result[7]);
        assert(self.result@ =~= compress(h0, chunk@));
        assert(self.message_schedule@ =~= w);
    }

    /// The digest: the eight words of the hash value, each big-endian.
    pub fn result_bytes(&self) -> (output: [u8; 32])
        ensures
            output@ == digest_bytes(self.result@),
    {
        let mut output: [u8; 32] = [0; 32];
        for i in 0..8
            invariant
                forall|k: int| 0 <= k < 4 * i ==> output[k] == #[trigger] word_byte(self.result[k / 4], k % 4),
        {
            let w = self.result[i];
            output[4 * i] = (#[verifier::truncate] ((w >> 24u32) as u8));
            output[4 * i + 1] = (#[verifier::truncate] ((w >> 16u32) as u8));
            output[4 * i + 2] = (#[verifier::truncate] ((w >> 8u32) as u8));
            output[4 * i + 3] = (#[verifier::truncate] (w as u8));
            assert(word_byte(w, 0) == output[4 * i + 0]);
            assert(word_byte(w, 1) == output[4 * i + 1]);
            assert(word_byte(w, 2) == output[4 * i + 2]);
            assert(w >> 0u32 == w) by (bit_vector);
            assert(word_byte(w, 3) == output[4 * i + 3]);
        }
        assert(output@ =~= digest_bytes(self.result@));
        output
    }
}

} // verus!
