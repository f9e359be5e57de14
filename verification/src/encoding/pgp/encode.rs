//! Encoding bytes as words of the PGP word list.

use super::parity::{parity_at, Parity, SwappingParity};
use super::roundtrip::{is_solid_word, lemma_lookup_word};
use super::wordlists::{word_for, EVEN, ODD};
use vstd::prelude::*;

verus! {

/// The word for `byte` in the list of the given parity: never empty, and free of white
/// space.
pub fn for_byte(byte: u8, parity: Parity) -> (word: &'static str)
    ensures
        word@ == word_for(byte, parity),
        is_solid_word(word@),
{
    proof {
        lemma_lookup_word(byte, parity);
    }
    match parity {
        Parity::Even => EVEN[byte as usize],
        Parity::Odd => ODD[byte as usize],
    }
}

/// The words that encode `input`: byte `i` becomes its word in the even list when `i`
/// is even and in the odd list when `i` is odd.
pub open spec fn encode_spec(input: Seq<u8>) -> Seq<Seq<char>> {
    Seq::new(input.len(), |i: int| word_for(input[i], parity_at(i)))
}

/// Encoding splits at any even length: the words of `a + b`, for `a` of even length, are
/// the words of `a` followed by the words of `b`.
pub proof fn lemma_encode_concat(a: Seq<u8>, b: Seq<u8>)
    requires
        a.len() % 2 == 0,
    ensures
        encode_spec(a + b) == encode_spec(a) + encode_spec(b),
{
    assert forall|i: int| 0 <= i < a.len() + b.len() implies #[trigger] encode_spec(a + b)[i] == (
    encode_spec(a) + encode_spec(b))[i] by {
        if i >= a.len() {
            assert(parity_at(i) == parity_at(i - a.len()));
            assert((a + b)[i] == b[i - a.len()]);
        } else {
            assert((a + b)[i] == a[i]);
        }
    }
    assert(encode_spec(a + b) =~= encode_spec(a) + encode_spec(b));
}

/// The character sequences held by a sequence of string slices.
pub open spec fn strs_view(v: Seq<&str>) -> Seq<Seq<char>> {
    v.map_values(|w: &str| w@)
}

/// Encode a vector of bytes using the PGP Word List.
pub fn encode(input: &[u8]) -> (words: Vec<&str>)
    ensures
        strs_view(words@) == encode_spec(input@),
{
    let mut parity: SwappingParity = SwappingParity::new(Parity::Even);
    let mut words: Vec<&str> = Vec::new();
    for i in 0..input.len()
        invariant
            parity.parity == parity_at(i as int),
            strs_view(words@) == encode_spec(input@).take(i as int),
    {
        let word = for_byte(input[i], parity.current_value_with_swap_side_effect());
        let ghost before = words@;
        words.push(word);
        assert(strs_view(words@) =~= strs_view(before).push(word@));
        assert(encode_spec(input@).take(i + 1) =~= encode_spec(input@).take(i as int).push(word@));
    }
    assert(encode_spec(input@).take(input@.len() as int) =~= encode_spec(input@));
    words
}

} // verus!
