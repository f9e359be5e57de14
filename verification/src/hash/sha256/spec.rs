//! SHA-256 as FIPS 180-4 defines it, written as spec functions over
//! sequences of bytes and 32-bit words.

use super::magic_numbers::{INITIAL_VALUE, K};
use vstd::prelude::*;

verus! {

/// ROTR^n(x): rotation of a 32-bit word to the right by `n` places (0 < n < 32).
pub open spec fn spec_rotr(x: u32, n: u32) -> u32 {
    (x >> n) | (x << ((32 - n) as u32))
}

/// Ch(x, y, z): each bit of `x` chooses the bit of `y` (when set) or of `z`.
pub open spec fn spec_ch(x: u32, y: u32, z: u32) -> u32 {
    (x & y) ^ (!x & z)
}

/// Maj(x, y, z): the bitwise majority of three words.
pub open spec fn spec_maj(x: u32, y: u32, z: u32) -> u32 {
    (x & y) ^ (x & z) ^ (y & z)
}

/// The upper-case sigma-0 function of the compression rounds.
pub open spec fn spec_big_sigma_0(x: u32) -> u32 {
    spec_rotr(x, 2) ^ spec_rotr(x, 13) ^ spec_rotr(x, 22)
}

/// The upper-case sigma-1 function of the compression rounds.
pub open spec fn spec_big_sigma_1(x: u32) -> u32 {
    spec_rotr(x, 6) ^ spec_rotr(x, 11) ^ spec_rotr(x, 25)
}

/// The lower-case sigma-0 function of the message schedule.
pub open spec fn spec_little_sigma_0(x: u32) -> u32 {
    spec_rotr(x, 7) ^ spec_rotr(x, 18) ^ (x >> 3)
}

/// The lower-case sigma-1 function of the message schedule.
pub open spec fn spec_little_sigma_1(x: u32) -> u32 {
    spec_rotr(x, 17) ^ spec_rotr(x, 19) ^ (x >> 10)
}

/// The 32-bit word whose big-endian bytes are `b0 b1 b2 b3`.
pub open spec fn be_word(b0: u8, b1: u8, b2: u8, b3: u8) -> u32 {
    ((b0 as u32) << 24u32) | ((b1 as u32) << 16u32) | ((b2 as u32) << 8u32) | (b3 as u32)
}

/// The sixteen big-endian words M(i)_0 .. M(i)_15 of a 64-byte block.
pub open spec fn block_words(block: Seq<u8>) -> Seq<u32> {
    Seq::new(
        16,
        |i: int| be_word(block[4 * i], block[4 * i + 1], block[4 * i + 2], block[4 * i + 3]),
    )
}

/// Word `t` of the message schedule W_0 .. W_63 prepared from the block words `m`.
pub open spec fn schedule_word(m: Seq<u32>, t: nat) -> u32
    decreases t,
{
    if t < 16 {
        m[t as int]
    } else {
        spec_little_sigma_1(schedule_word(m, (t - 2) as nat)).wrapping_add(
            schedule_word(m, (t - 7) as nat),
        ).wrapping_add(spec_little_sigma_0(schedule_word(m, (t - 15) as nat))).wrapping_add(
            schedule_word(m, (t - 16) as nat),
        )
    }
}

/// The whole message schedule W_0 .. W_63.
pub open spec fn schedule(m: Seq<u32>) -> Seq<u32> {
    Seq::new(64, |t: int| schedule_word(m, t as nat))
}

/// The eight working variables a, b, c, d, e, f, g, h.
pub type Working = (u32, u32, u32, u32, u32, u32, u32, u32);

/// One round of the compression function, with round constant `k` and schedule word `w`.
pub open spec fn round(s: Working, k: u32, w: u32) -> Working {
    let (a, b, c, d, e, f, g, h) = s;
    let t1 = h.wrapping_add(spec_big_sigma_1(e)).wrapping_add(spec_ch(e, f, g)).wrapping_add(
        k,
    ).wrapping_add(w);
    let t2 = spec_big_sigma_0(a).wrapping_add(spec_maj(a, b, c));
    (t1.wrapping_add(t2), a, b, c, d.wrapping_add(t1), e, f, g)
}

/// The working variables after the first `t` rounds over the schedule `w`.
pub open spec fn rounds(s: Working, w: Seq<u32>, t: nat) -> Working
    decreases t,
{
    if t == 0 {
        s
    } else {
        round(rounds(s, w, (t - 1) as nat), K@[t - 1], w[t - 1])
    }
}

/// The working variables initialised from a hash value.
pub open spec fn working_of(h: Seq<u32>) -> Working {
    (h[0], h[1], h[2], h[3], h[4], h[5], h[6], h[7])
}

/// The compression function: the next hash value from hash value `h` and block words `m`.
pub open spec fn compress(h: Seq<u32>, m: Seq<u32>) -> Seq<u32> {
    let s = rounds(working_of(h), schedule(m), 64);
    seq![
        s.0.wrapping_add(h[0]),
        s.1.wrapping_add(h[1]),
        s.2.wrapping_add(h[2]),
        s.3.wrapping_add(h[3]),
        s.4.wrapping_add(h[4]),
        s.5.wrapping_add(h[5]),
        s.6.wrapping_add(h[6]),
        s.7.wrapping_add(h[7]),
    ]
}

/// The number of zero bytes that pad a message of `len` bytes.
pub open spec fn zero_count(len: nat) -> nat {
    if len % 64 <= 55 {
        (55 - len % 64) as nat
    } else {
        (119 - len % 64) as nat
    }
}

/// The eight big-endian bytes of a 64-bit integer.
pub open spec fn be_u64_bytes(n: u64) -> Seq<u8> {
    seq![
        (n >> 56u64) as u8,
        (n >> 48u64) as u8,
        (n >> 40u64) as u8,
        (n >> 32u64) as u8,
        (n >> 24u64) as u8,
        (n >> 16u64) as u8,
        (n >> 8u64) as u8,
        n as u8,
    ]
}

/// The padding appended to a message of `len` bytes: the byte 0x80, zero bytes, and
/// the message length in bits as a big-endian 64-bit integer.
pub open spec fn padding(len: nat) -> Seq<u8> {
    seq![0x80u8] + Seq::new(zero_count(len), |i: int| 0u8) + be_u64_bytes((len * 8) as u64)
}

/// The padded message.
pub open spec fn padded(msg: Seq<u8>) -> Seq<u8> {
    msg + padding(msg.len())
}

/// Block `i` (64 bytes) of a padded message.
pub open spec fn block(m: Seq<u8>, i: nat) -> Seq<u8> {
    m.subrange(64 * i as int, 64 * i as int + 64)
}

/// The hash value after the first `n` blocks of `m` have been processed from `h`.
pub open spec fn hash_blocks(h: Seq<u32>, m: Seq<u8>, n: nat) -> Seq<u32>
    decreases n,
{
    if n == 0 {
        h
    } else {
        compress(hash_blocks(h, m, (n - 1) as nat), block_words(block(m, (n - 1) as nat)))
    }
}

/// Byte `j` (0 is the most significant) of the big-endian form of a word.
pub open spec fn word_byte(w: u32, j: int) -> u8 {
    (w >> ((24 - 8 * j) as u32)) as u8
}

/// The 32-byte digest: the eight words of a hash value, each big-endian.
pub open spec fn digest_bytes(h: Seq<u32>) -> Seq<u8> {
    Seq::new(32, |i: int| word_byte(h[i / 4], i % 4))
}

/// SHA-256 of a message.
pub open spec fn sha256(msg: Seq<u8>) -> Seq<u8> {
    let m = padded(msg);
    digest_bytes(hash_blocks(INITIAL_VALUE@, m, m.len() / 64))
}

/// The padded message is a whole number of 64-byte (512-bit) blocks (one more than the
/// message's whole blocks when at most 55 bytes remain, else two more), begins with the
/// message, and is followed by at least 9 and at most 72 bytes of padding.
pub proof fn lemma_padded_length(msg: Seq<u8>)
    ensures
        padded(msg).len() % 64 == 0,
        padded(msg).len() / 64 == msg.len() / 64 + if msg.len() % 64 <= 55 {
            1int
        } else {
            2int
        },
        padded(msg).subrange(0, msg.len() as int) == msg,
        9 <= padding(msg.len()).len() <= 72,
{
    assert(padded(msg).subrange(0, msg.len() as int) =~= msg);
}

/// The blocks of the padded message: the full blocks of the message itself, then one
/// block made of the remaining bytes and the start of the padding, and, when the padding
/// does not fit there, one more block made of the rest of the padding.
pub proof fn lemma_padded_blocks(msg: Seq<u8>)
    ensures
        forall|i: nat|
            i < msg.len() / 64 ==> #[trigger] block(padded(msg), i) == msg.subrange(
                64 * i as int,
                64 * i as int + 64,
            ),
        block(padded(msg), msg.len() / 64) == msg.subrange(64 * (msg.len() / 64) as int, msg.len() as int)
            + padding(msg.len()).subrange(0, 64 - msg.len() % 64),
        padding(msg.len()).len() > 64 - msg.len() % 64 ==> block(padded(msg), msg.len() / 64 + 1)
            == padding(msg.len()).subrange(64 - msg.len() % 64, 128 - msg.len() % 64),
        padded(msg).len() / 64 == if padding(msg.len()).len() > 64 - msg.len() % 64 {
            msg.len() / 64 + 2
        } else {
            msg.len() / 64 + 1
        },
{
    let m = padded(msg);
    let len = msg.len();
    let q = len / 64;
    let r = len % 64;
    let pad = padding(len);
    assert forall|i: nat| i < q implies #[trigger] block(m, i) == msg.subrange(
        64 * i as int,
        64 * i as int + 64,
    ) by {
        assert(block(m, i) =~= msg.subrange(64 * i as int, 64 * i as int + 64));
    }
    assert(block(m, q) =~= msg.subrange(64 * q as int, len as int) + pad.subrange(0, 64 - r));
    if pad.len() > 64 - r {
        assert(block(m, q + 1) =~= pad.subrange(64 - r, 128 - r));
    }
}

/// Maj is the bitwise majority: each bit of the result is set exactly when the bit is
/// set in at least two of the three words. Hence it does not depend on the order of its
/// arguments, and it gives back a word that occurs twice.
pub proof fn lemma_maj(x: u32, y: u32, z: u32)
    ensures
        forall|k: u32|
            k < 32 ==> ((#[trigger] ((spec_maj(x, y, z) >> k) & 1u32) == 1u32) <==> (((x >> k)
                & 1u32) + ((y >> k) & 1u32) + ((z >> k) & 1u32) >= 2)),
        spec_maj(x, y, z) == spec_maj(y, x, z),
        spec_maj(x, y, z) == spec_maj(x, z, y),
        spec_maj(x, y, z) == spec_maj(z, y, x),
        spec_maj(x, x, z) == x,
{
    assert(forall|k: u32|
        k < 32 ==> ((#[trigger] ((((x & y) ^ (x & z) ^ (y & z)) >> k) & 1u32) == 1u32) <==> (((x
            >> k) & 1u32) + ((y >> k) & 1u32) + ((z >> k) & 1u32) >= 2))) by (bit_vector);
    assert((x & y) ^ (x & z) ^ (y & z) == (y & x) ^ (y & z) ^ (x & z)) by (bit_vector);
    assert((x & y) ^ (x & z) ^ (y & z) == (x & z) ^ (x & y) ^ (z & y)) by (bit_vector);
    assert((x & y) ^ (x & z) ^ (y & z) == (z & y) ^ (z & x) ^ (y & x)) by (bit_vector);
    assert((x & x) ^ (x & z) ^ (x & z) == x) by (bit_vector);
}

/// ROTR^n moves every bit n places to the right, the bits that leave at the bottom
/// coming back in at the top: bit k of the result is bit (k + n) mod 32 of x.
pub proof fn lemma_rotr(x: u32, n: u32)
    requires
        0 < n < 32,
    ensures
        forall|k: u32|
            k < 32 ==> #[trigger] ((spec_rotr(x, n) >> k) & 1u32) == ((x >> ((k + n) % 32)) & 1u32),
{
    assert(forall|k: u32|
        k < 32 ==> #[trigger] ((((x >> n) | (x << ((32 - n) as u32))) >> k) & 1u32) == ((x >> ((k
            + n) % 32)) & 1u32)) by (bit_vector)
        requires
            0 < n < 32,
    ;
}

/// Ch chooses bitwise: where x has a 1 the result has y's bit, elsewhere z's.
pub proof fn lemma_ch(x: u32, y: u32, z: u32)
    ensures
        forall|k: u32|
            k < 32 ==> #[trigger] ((spec_ch(x, y, z) >> k) & 1u32) == if (x >> k) & 1u32 == 1u32 {
                (y >> k) & 1u32
            } else {
                (z >> k) & 1u32
            },
{
    assert(forall|k: u32|
        k < 32 ==> #[trigger] ((((x & y) ^ (!x & z)) >> k) & 1u32) == if (x >> k) & 1u32 == 1u32 {
            (y >> k) & 1u32
        } else {
            (z >> k) & 1u32
        }) by (bit_vector);
}

/// A block's word is its four bytes read in big-endian order.
pub proof fn lemma_be_word(b0: u8, b1: u8, b2: u8, b3: u8)
    ensures
        be_word(b0, b1, b2, b3) as int == b0 as int * 0x1000000 + b1 as int * 0x10000 + b2 as int
            * 0x100 + b3 as int,
{
    assert(((b0 as u32) << 24u32) | ((b1 as u32) << 16u32) | ((b2 as u32) << 8u32) | (b3 as u32)
        == b0 as u32 * 0x1000000u32 + b1 as u32 * 0x10000u32 + b2 as u32 * 0x100u32 + b3 as u32)
        by (bit_vector);
}

/// The digest is big-endian: its bytes 4i .. 4i + 3, read in big-endian order, give
/// word i of the hash value.
pub proof fn lemma_digest_bytes(h: Seq<u32>, i: int)
    requires
        0 <= i < 8,
    ensures
        digest_bytes(h).len() == 32,
        digest_bytes(h)[4 * i] as int * 0x1000000 + digest_bytes(h)[4 * i + 1] as int * 0x10000
            + digest_bytes(h)[4 * i + 2] as int * 0x100 + digest_bytes(h)[4 * i + 3] as int
            == h[i] as int,
{
    let w = h[i];
    assert(digest_bytes(h)[4 * i] == word_byte(w, 0));
    assert(digest_bytes(h)[4 * i + 1] == word_byte(w, 1));
    assert(digest_bytes(h)[4 * i + 2] == word_byte(w, 2));
    assert(digest_bytes(h)[4 * i + 3] == word_byte(w, 3));
    assert(((w >> 24u32) as u8) as u32 * 0x1000000u32 + ((w >> 16u32) as u8) as u32 * 0x10000u32
        + ((w >> 8u32) as u8) as u32 * 0x100u32 + ((w >> 0u32) as u8) as u32 == w) by (bit_vector);
}

/// SHA-256 is the digest of the hash value reached from H(0) by compressing the blocks
/// of the padded message in order: one block more than the message's whole blocks when
/// at most 55 bytes remain after them, two more otherwise.
pub proof fn lemma_sha256_blocks(msg: Seq<u8>)
    ensures
        sha256(msg) == digest_bytes(
            hash_blocks(
                INITIAL_VALUE@,
                padded(msg),
                (msg.len() / 64 + if msg.len() % 64 <= 55 {
                    1int
                } else {
                    2int
                }) as nat,
            ),
        ),
        padded(msg).len() == 64 * (msg.len() / 64 + if msg.len() % 64 <= 55 {
            1int
        } else {
            2int
        }),
{
    lemma_padded_length(msg);
}

/// The eight bytes of a 64-bit integer, read back in big-endian order, give the integer.
pub proof fn lemma_be_u64_bytes_value(x: u64)
    ensures
        be_u64_bytes(x).len() == 8,
        be_u64_bytes(x)[0] as int * 0x100000000000000 + be_u64_bytes(x)[1] as int * 0x1000000000000
            + be_u64_bytes(x)[2] as int * 0x10000000000 + be_u64_bytes(x)[3] as int * 0x100000000
            + be_u64_bytes(x)[4] as int * 0x1000000 + be_u64_bytes(x)[5] as int * 0x10000
            + be_u64_bytes(x)[6] as int * 0x100 + be_u64_bytes(x)[7] as int == x,
{
    let b0 = (x >> 56u64) as u8;
    let b1 = (x >> 48u64) as u8;
    let b2 = (x >> 40u64) as u8;
    let b3 = (x >> 32u64) as u8;
    let b4 = (x >> 24u64) as u8;
    let b5 = (x >> 16u64) as u8;
    let b6 = (x >> 8u64) as u8;
    let b7 = x as u8;
    assert(b0 as u64 * 0x100000000000000u64 + b1 as u64 * 0x1000000000000u64 + b2 as u64
        * 0x10000000000u64 + b3 as u64 * 0x100000000u64 + b4 as u64 * 0x1000000u64 + b5 as u64
        * 0x10000u64 + b6 as u64 * 0x100u64 + b7 as u64 == x) by (bit_vector)
        requires
            b0 == (x >> 56u64) as u8,
            b1 == (x >> 48u64) as u8,
            b2 == (x >> 40u64) as u8,
            b3 == (x >> 32u64) as u8,
            b4 == (x >> 24u64) as u8,
            b5 == (x >> 16u64) as u8,
            b6 == (x >> 8u64) as u8,
            b7 == x as u8,
    ;
}

/// The padding of a message of `len` bytes (whose length in bits fits in 64 bits) is the
/// byte 0x80, then zero bytes, then eight bytes that read in big-endian order give the
/// message's length in bits; with it the message fills whole 64-byte blocks.
pub proof fn lemma_padding_fields(len: nat)
    requires
        len * 8 < 0x10000000000000000,
    ensures
        ({
            let p = padding(len);
            let n = p.len() as int;
            &&& 9 <= n <= 72
            &&& (len + n) % 64 == 0
            &&& p[0] == 0x80
            &&& forall|i: int| 1 <= i < n - 8 ==> p[i] == 0
            &&& p[n - 8] as int * 0x100000000000000 + p[n - 7] as int * 0x1000000000000 + p[n
                - 6] as int * 0x10000000000 + p[n - 5] as int * 0x100000000 + p[n - 4] as int
                * 0x1000000 + p[n - 3] as int * 0x10000 + p[n - 2] as int * 0x100 + p[n - 1] as int
                == len * 8
        }),
{
    let p = padding(len);
    let n = p.len() as int;
    let x = (len * 8) as u64;
    lemma_be_u64_bytes_value(x);
    assert forall|k: int| 0 <= k < 8 implies p[n - 8 + k] == be_u64_bytes(x)[k] by {}
    assert(x == len * 8);
}

/// The compression function adds, word by word, the working variables after the 64
/// rounds to the hash value it starts from: for every block, whatever its words.
pub proof fn lemma_compress_feed_forward(h: Seq<u32>, m: Seq<u32>)
    ensures
        ({
            let s = rounds(working_of(h), schedule(m), 64);
            let c = compress(h, m);
            &&& c.len() == 8
            &&& c[0] == s.0.wrapping_add(h[0]) && c[1] == s.1.wrapping_add(h[1])
            &&& c[2] == s.2.wrapping_add(h[2]) && c[3] == s.3.wrapping_add(h[3])
            &&& c[4] == s.4.wrapping_add(h[4]) && c[5] == s.5.wrapping_add(h[5])
            &&& c[6] == s.6.wrapping_add(h[6]) && c[7] == s.7.wrapping_add(h[7])
        }),
{
}

/// Each round takes the working variables after the rounds before it, with round
/// constant K_t and schedule word W_t.
pub proof fn lemma_rounds_step(s: Working, w: Seq<u32>, t: nat)
    ensures
        rounds(s, w, 0) == s,
        rounds(s, w, t + 1) == round(rounds(s, w, t), K@[t as int], w[t as int]),
{
}

/// Adding with wraparound is addition modulo 2^32, also after an earlier such addition.
proof fn lemma_wrapping_add_mod(x: u32, y: u32, a: int)
    requires
        x as int == a % 0x100000000,
    ensures
        x.wrapping_add(y) as int == (a + y) % 0x100000000,
{
    vstd::arithmetic::div_mod::lemma_add_mod_noop(a, y as int, 0x100000000);
    vstd::arithmetic::div_mod::lemma_small_mod(y as nat, 0x100000000);
}

/// One round: T1 = h + Σ1(e) + Ch(e, f, g) + K_t + W_t and T2 = Σ0(a) + Maj(a, b, c),
/// all modulo 2^32; then h, g, f, e, d, c, b, a become g, f, e, d + T1, c, b, a, T1 + T2.
pub proof fn lemma_round(s: Working, k: u32, w: u32)
    ensures
        ({
            let (a, b, c, d, e, f, g, h) = s;
            let t1 = ((h as int + spec_big_sigma_1(e) as int + spec_ch(e, f, g) as int + k as int
                + w as int) % 0x100000000) as u32;
            let t2 = ((spec_big_sigma_0(a) as int + spec_maj(a, b, c) as int) % 0x100000000) as u32;
            round(s, k, w) == (
                ((t1 as int + t2 as int) % 0x100000000) as u32,
                a,
                b,
                c,
                ((d as int + t1 as int) % 0x100000000) as u32,
                e,
                f,
                g,
            )
        }),
{
    let (a, b, c, d, e, f, g, h) = s;
    lemma_wrapping_add_mod(h, spec_big_sigma_1(e), h as int);
    lemma_wrapping_add_mod(h.wrapping_add(spec_big_sigma_1(e)), spec_ch(e, f, g), h as int + spec_big_sigma_1(e) as int);
    let x2 = h.wrapping_add(spec_big_sigma_1(e)).wrapping_add(spec_ch(e, f, g));
    lemma_wrapping_add_mod(x2, k, h as int + spec_big_sigma_1(e) as int + spec_ch(e, f, g) as int);
    let x3 = x2.wrapping_add(k);
    lemma_wrapping_add_mod(x3, w, h as int + spec_big_sigma_1(e) as int + spec_ch(e, f, g) as int + k as int);
    lemma_wrapping_add_mod(spec_big_sigma_0(a), spec_maj(a, b, c), spec_big_sigma_0(a) as int);
    let t1 = x3.wrapping_add(w);
    let t2 = spec_big_sigma_0(a).wrapping_add(spec_maj(a, b, c));
    lemma_wrapping_add_mod(t1, t2, t1 as int);
    lemma_wrapping_add_mod(d, t1, d as int);
}

/// The message schedule: W_t is the block's word t for t < 16, and after that
/// σ1(W_{t-2}) + W_{t-7} + σ0(W_{t-15}) + W_{t-16} modulo 2^32.
pub proof fn lemma_schedule(m: Seq<u32>, t: nat)
    requires
        t < 64,
    ensures
        schedule(m).len() == 64,
        t < 16 ==> schedule(m)[t as int] == m[t as int],
        t >= 16 ==> schedule(m)[t as int] == ((spec_little_sigma_1(schedule(m)[t - 2]) as int
            + schedule(m)[t - 7] as int + spec_little_sigma_0(schedule(m)[t - 15]) as int
            + schedule(m)[t - 16] as int) % 0x100000000) as u32,
{
}

} // verus!
