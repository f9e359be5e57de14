//! Decoding the encoding of any bytes gives back those bytes.

use super::decode::{decode_keys, decode_spec, lookup, lookup_key, DecodeFailure};
use super::encode::encode_spec;
use super::parity::{parity_at, Parity};
use super::text::{is_white_space, lemma_word_run, lookup_form, split_ws};
use super::wordlists::{
    ascii_lower, is_ascii_letter, lemma_plain_word_letters, lemma_words_distinct,
    lemma_words_plain, word_for,
};
use vstd::prelude::*;

verus! {

/// Words joined into one text with a single space between each two.
pub open spec fn join_with_spaces(ws: Seq<Seq<char>>) -> Seq<char>
    decreases ws.len(),
{
    if ws.len() == 0 {
        seq![]
    } else if ws.len() == 1 {
        ws[0]
    } else {
        ws[0] + seq![' '] + join_with_spaces(ws.drop_first())
    }
}

/// A word that splitting keeps whole: at least one character, none of them white space.
pub open spec fn is_solid_word(w: Seq<char>) -> bool {
    w.len() > 0 && forall|k: int| 0 <= k < w.len() ==> !is_white_space(#[trigger] w[k])
}

/// Splitting words joined with single spaces at white space gives back the words, when
/// none of them is empty or holds white space.
pub proof fn lemma_split_join(ws: Seq<Seq<char>>)
    requires
        forall|i: int| 0 <= i < ws.len() ==> is_solid_word(#[trigger] ws[i]),
    ensures
        split_ws(join_with_spaces(ws)) == ws,
    decreases ws.len(),
{
    if ws.len() == 0 {
        assert(split_ws(join_with_spaces(ws)) =~= ws);
    } else {
        let w = ws[0];
        assert(is_solid_word(w));
        let s = join_with_spaces(ws);
        if ws.len() == 1 {
            assert(s == w);
            lemma_word_run(s, w.len() as int);
            assert(s.take(w.len() as int) =~= w);
            assert(s.skip(w.len() as int) =~= Seq::<char>::empty());
            assert(split_ws(s.skip(w.len() as int)) =~= Seq::<Seq<char>>::empty());
            assert(split_ws(s) =~= ws);
        } else {
            let rest = join_with_spaces(ws.drop_first());
            assert(s == w + seq![' '] + rest);
            assert forall|j: int| 0 <= j < w.len() implies !is_white_space(#[trigger] s[j]) by {
                assert(s[j] == w[j]);
            }
            assert(s[w.len() as int] == ' ');
            lemma_word_run(s, w.len() as int);
            assert(s.take(w.len() as int) =~= w);
            let t = s.skip(w.len() as int);
            assert(t =~= seq![' '] + rest);
            assert(t.drop_first() =~= rest);
            assert(split_ws(t) == split_ws(rest));
            assert forall|i: int|
                0 <= i < ws.drop_first().len() implies is_solid_word(
                #[trigger] ws.drop_first()[i],
            ) by {
                assert(ws.drop_first()[i] == ws[i + 1]);
            }
            lemma_split_join(ws.drop_first());
            assert(s[0] == w[0]);
            assert(split_ws(s) =~= ws);
        }
    }
}

/// Each word of a list stands for its own byte in that list.
pub proof fn lemma_lookup_word(b: u8, p: Parity)
    ensures
        lookup(word_for(b, p), p) == Some(b),
        is_solid_word(word_for(b, p)),
{
    let w = word_for(b, p);
    lemma_words_plain(b, p);
    lemma_plain_word_letters(w);
    assert(vstd::utf8::is_ascii_chars(w));
    assert(lookup_form(w) == ascii_lower(w));
    let c = choose|c: u8| ascii_lower(#[trigger] word_for(c, p)) == ascii_lower(w);
    if c != b {
        lemma_words_distinct(c, b, p);
    }
    assert(lookup_key(ascii_lower(w), p) == Some(b));
}

/// Decoding the first `n` words of an encoding gives back the first `n` bytes.
proof fn lemma_decode_prefix(input: Seq<u8>, n: nat)
    requires
        n <= input.len(),
    ensures
        decode_keys(
            encode_spec(input),
            encode_spec(input).map_values(|w: Seq<char>| lookup_form(w)),
            n,
        ) == Ok::<Seq<u8>, DecodeFailure>(input.take(n as int)),
    decreases n,
{
    if n > 0 {
        lemma_decode_prefix(input, (n - 1) as nat);
        lemma_lookup_word(input[n - 1], parity_at(n - 1));
        assert(input.take(n as int) =~= input.take(n - 1).push(input[n - 1]));
    } else {
        assert(input.take(0) =~= Seq::<u8>::empty());
    }
}

/// Encoding is undone by decoding: the words of any bytes, joined with spaces, decode
/// to those bytes.
pub proof fn lemma_decode_inverts_encode(input: Seq<u8>)
    ensures
        decode_spec(join_with_spaces(encode_spec(input))) == Ok::<Seq<u8>, DecodeFailure>(input),
{
    let ws = encode_spec(input);
    assert forall|i: int| 0 <= i < ws.len() implies is_solid_word(#[trigger] ws[i]) by {
        lemma_lookup_word(input[i], parity_at(i));
    }
    lemma_split_join(ws);
    lemma_decode_prefix(input, input.len());
    assert(input.take(input.len() as int) =~= input);
}

} // verus!
