//! Decoding PGP word list text into bytes.

pub mod error;

pub use self::error::{failure_position, DecodeError, DecodeFailure};
use super::encode::for_byte;
use super::parity::{opposite, parity_at, Parity, SwappingParity};
use super::text::{
    lookup_form, split_whitespace, split_ws, str_to_lowercase, strings_view, unicode_lowercase,
};
use super::wordlists::{ascii_lower, lemma_words_ascii, lemma_words_distinct, word_for};
use vstd::prelude::*;

verus! {

/// The byte whose word, in the list of parity `p`, has the lower-case form `key`.
pub open spec fn lookup_key(key: Seq<char>, p: Parity) -> Option<u8> {
    if exists|b: u8| ascii_lower(#[trigger] word_for(b, p)) == key {
        Some(choose|b: u8| ascii_lower(#[trigger] word_for(b, p)) == key)
    } else {
        None
    }
}

/// The byte that word `w` stands for in the list of parity `p`, upper and lower case
/// not told apart.
pub open spec fn lookup(w: Seq<char>, p: Parity) -> Option<u8> {
    lookup_key(lookup_form(w), p)
}

/// The lower-case forms of the words of the list of parity `p`, as `str::to_lowercase`
/// gives them. They are the words' ASCII lower-case forms, and no two are equal: the
/// words of a list stay distinct under `str::to_lowercase`.
pub fn lowercase_words(parity: Parity) -> (keys: Vec<String>)
    ensures
        keys@.len() == 256,
        forall|b: u8| #[trigger] keys@[b as int]@ == unicode_lowercase(word_for(b, parity)),
        forall|b: u8| keys@[b as int]@ == ascii_lower(#[trigger] word_for(b, parity)),
        forall|b: u8|
            unicode_lowercase(#[trigger] word_for(b, parity)) == ascii_lower(word_for(b, parity)),
        forall|b1: u8, b2: u8|
            b1 != b2 ==> unicode_lowercase(#[trigger] word_for(b1, parity)) != unicode_lowercase(
                #[trigger] word_for(b2, parity),
            ),
{
    let mut keys: Vec<String> = Vec::new();
    let mut b: u16 = 0;
    while b < 256
        invariant
            b <= 256,
            keys@.len() == b,
            forall|c: u8|
                c < b ==> #[trigger] keys@[c as int]@ == unicode_lowercase(word_for(c, parity))
                    && keys@[c as int]@ == ascii_lower(word_for(c, parity)),
        decreases 256 - b,
    {
        let byte = b as u8;
        let word = for_byte(byte, parity);
        proof {
            lemma_words_ascii(byte, parity);
        }
        let key = str_to_lowercase(word);
        keys.push(key);
        assert(keys@[byte as int]@ == unicode_lowercase(word_for(byte, parity)));
        b = b + 1;
    }
    assert forall|c: u8|
        unicode_lowercase(#[trigger] word_for(c, parity)) == ascii_lower(word_for(c, parity)) by {
        assert(keys@[c as int]@ == unicode_lowercase(word_for(c, parity)));
    }
    assert forall|b1: u8, b2: u8|
        b1 != b2 implies unicode_lowercase(#[trigger] word_for(b1, parity)) != unicode_lowercase(
        #[trigger] word_for(b2, parity),
    ) by {
        lemma_words_distinct(b1, b2, parity);
    }
    keys
}

/// The byte of the word whose lower-case form is `key`, in the list of parity `p`, given
/// the lower-case forms of that list's words.
pub fn from_lowercase_word(key: &str, keys: &Vec<String>, parity: Parity) -> (r: Option<u8>)
    requires
        keys@.len() == 256,
        forall|b: u8| keys@[b as int]@ == ascii_lower(#[trigger] word_for(b, parity)),
    ensures
        r == lookup_key(key@, parity),
{
    let k = key.to_owned();
    let mut b: u16 = 0;
    while b < 256
        invariant
            b <= 256,
            k@ == key@,
            keys@.len() == 256,
            forall|c: u8| keys@[c as int]@ == ascii_lower(#[trigger] word_for(c, parity)),
            forall|c: u8| c < b ==> ascii_lower(#[trigger] word_for(c, parity)) != key@,
        decreases 256 - b,
    {
        let byte = b as u8;
        if keys[b as usize] == k {
            assert(ascii_lower(word_for(byte, parity)) == key@);
            proof {
                let c = choose|c: u8| ascii_lower(#[trigger] word_for(c, parity)) == key@;
                if c != byte {
                    lemma_words_distinct(c, byte, parity);
                }
            }
            return Some(byte);
        }
        assert(ascii_lower(word_for(byte, parity)) != key@);
        b = b + 1;
    }
    None
}

/// The byte that `word` stands for in the list of parity `p`: the one whose word has the
/// same `str::to_lowercase` form as `word`, if any.
pub fn from_word(word: &str, parity: Parity) -> (r: Option<u8>)
    ensures
        r == lookup(word@, parity),
        r == lookup_key(unicode_lowercase(word@), parity),
        forall|b: u8|
            (r == Some(b)) <==> unicode_lowercase(word@) == unicode_lowercase(
                #[trigger] word_for(b, parity),
            ),
{
    let keys = lowercase_words(parity);
    let lowered = str_to_lowercase(word);
    let r = from_lowercase_word(lowered.as_str(), &keys, parity);
    proof {
        let key = unicode_lowercase(word@);
        assert(lookup_form(word@) == key);
        assert forall|b: u8|
            (r == Some(b)) <==> key == unicode_lowercase(#[trigger] word_for(b, parity)) by {
            if key == unicode_lowercase(word_for(b, parity)) {
                assert(ascii_lower(word_for(b, parity)) == key);
                let c = choose|c: u8| ascii_lower(#[trigger] word_for(c, parity)) == key;
                if c != b {
                    lemma_words_distinct(c, b, parity);
                }
            }
        }
    }
    r
}

/// How the word `w`, with lower-case form `key`, fails at position `pos`: it is either in
/// the list of the other parity, or in neither list.
pub open spec fn failure_at(w: Seq<char>, key: Seq<char>, pos: nat) -> DecodeFailure {
    let actual = opposite(parity_at(pos as int));
    match lookup_key(key, actual) {
        Some(byte_value) => DecodeFailure::ParityError {
            position: pos,
            word: w,
            actual_parity: SwappingParity { parity: actual },
            byte_value,
        },
        None => DecodeFailure::UnrecognizedWord { position: pos, word: w },
    }
}

/// The outcome of decoding the first `n` words of `ws`, word `i` being looked up by its
/// lower-case form `keys[i]`: the bytes of the words when each is in the list of its
/// position's parity, else the failure of the first word that is not.
pub open spec fn decode_keys(ws: Seq<Seq<char>>, keys: Seq<Seq<char>>, n: nat) -> Result<
    Seq<u8>,
    DecodeFailure,
>
    decreases n,
{
    if n == 0 {
        Ok(seq![])
    } else {
        match decode_keys(ws, keys, (n - 1) as nat) {
            Err(e) => Err(e),
            Ok(bytes) => match lookup_key(keys[n - 1], parity_at(n - 1)) {
                Some(b) => Ok(bytes.push(b)),
                None => Err(failure_at(ws[n - 1], keys[n - 1], (n - 1) as nat)),
            },
        }
    }
}

/// The outcome of decoding a text: its words, split at white space, decoded in order,
/// each looked up by its `lookup_form`.
pub open spec fn decode_spec(input: Seq<char>) -> Result<Seq<u8>, DecodeFailure> {
    let ws = split_ws(input);
    decode_keys(ws, ws.map_values(|w: Seq<char>| lookup_form(w)), ws.len())
}

/// The outcome of decoding a text: its words, split at white space, decoded in order,
/// each looked up by its `str::to_lowercase` form.
pub open spec fn decode_lowercase_spec(input: Seq<char>) -> Result<Seq<u8>, DecodeFailure> {
    let ws = split_ws(input);
    decode_keys(ws, ws.map_values(|w: Seq<char>| unicode_lowercase(w)), ws.len())
}

/// The content of a decoding result.
pub open spec fn decode_result_view(r: Result<Vec<u8>, DecodeError>) -> Result<
    Seq<u8>,
    DecodeFailure,
> {
    match r {
        Ok(v) => Ok(v@),
        Err(e) => Err(e@),
    }
}

/// Once decoding fails at some word, it fails there whatever follows.
proof fn lemma_failure_persists(ws: Seq<Seq<char>>, keys: Seq<Seq<char>>, i: nat, n: nat)
    requires
        i <= n,
        decode_keys(ws, keys, i) is Err,
    ensures
        decode_keys(ws, keys, n) == decode_keys(ws, keys, i),
    decreases n - i,
{
    if n > i {
        lemma_failure_persists(ws, keys, i, (n - 1) as nat);
    }
}

/// Two outcomes that agree in all but the words they quote: the same bytes, or failures
/// of the same kind at the same position with the same parity and byte.
pub open spec fn same_outcome(
    a: Result<Seq<u8>, DecodeFailure>,
    b: Result<Seq<u8>, DecodeFailure>,
) -> bool {
    match (a, b) {
        (Ok(x), Ok(y)) => x == y,
        (
            Err(DecodeFailure::ParityError { position: p1, actual_parity: a1, byte_value: v1, .. }),
            Err(DecodeFailure::ParityError { position: p2, actual_parity: a2, byte_value: v2, .. }),
        ) => p1 == p2 && a1 == a2 && v1 == v2,
        (
            Err(DecodeFailure::UnrecognizedWord { position: p1, .. }),
            Err(DecodeFailure::UnrecognizedWord { position: p2, .. }),
        ) => p1 == p2,
        _ => false,
    }
}

/// Decoding the first `n` words depends on the words only through their keys.
proof fn lemma_decode_keys_same(
    ws1: Seq<Seq<char>>,
    ws2: Seq<Seq<char>>,
    keys1: Seq<Seq<char>>,
    keys2: Seq<Seq<char>>,
    n: nat,
)
    requires
        n <= keys1.len(),
        n <= keys2.len(),
        forall|i: int| 0 <= i < n ==> keys1[i] == keys2[i],
    ensures
        same_outcome(decode_keys(ws1, keys1, n), decode_keys(ws2, keys2, n)),
    decreases n,
{
    if n > 0 {
        lemma_decode_keys_same(ws1, ws2, keys1, keys2, (n - 1) as nat);
    }
}

/// Decoding depends only on the `str::to_lowercase` forms of the words: two texts whose
/// words, split at white space, have the same lower-case forms decode alike (upper and
/// lower case, and the kind and amount of white space, make no difference).
pub proof fn lemma_decode_ignores_case_and_spacing(s1: Seq<char>, s2: Seq<char>)
    requires
        split_ws(s1).len() == split_ws(s2).len(),
        forall|i: int|
            0 <= i < split_ws(s1).len() ==> unicode_lowercase(#[trigger] split_ws(s1)[i])
                == unicode_lowercase(split_ws(s2)[i]),
    ensures
        same_outcome(decode_lowercase_spec(s1), decode_lowercase_spec(s2)),
{
    let ws1 = split_ws(s1);
    let ws2 = split_ws(s2);
    let k1 = ws1.map_values(|w: Seq<char>| unicode_lowercase(w));
    let k2 = ws2.map_values(|w: Seq<char>| unicode_lowercase(w));
    assert forall|i: int| 0 <= i < ws1.len() implies k1[i] == k2[i] by {
        assert(unicode_lowercase(ws1[i]) == unicode_lowercase(ws2[i]));
    }
    lemma_decode_keys_same(ws1, ws2, k1, k2, ws1.len());
}

/// What decoding the first `n` words by their keys gives, said word by word: success
/// exactly when every word is in the list of its position's parity, with the bytes of
/// those words in order; otherwise a failure at the first word that is not, which is a
/// parity error carrying the other list's byte when the word is in the other list, and an
/// unrecognized word when it is in neither.
pub proof fn lemma_decode_keys_words(ws: Seq<Seq<char>>, keys: Seq<Seq<char>>, n: nat)
    requires
        n <= ws.len(),
        n <= keys.len(),
    ensures
        (forall|i: int| 0 <= i < n ==> lookup_key(#[trigger] keys[i], parity_at(i)) is Some)
            <==> decode_keys(ws, keys, n) is Ok,
        decode_keys(ws, keys, n) matches Ok(bytes) ==> {
            &&& bytes.len() == n
            &&& forall|i: int|
                0 <= i < n ==> lookup_key(#[trigger] keys[i], parity_at(i)) == Some(bytes[i])
        },
        decode_keys(ws, keys, n) matches Err(e) ==> {
            let p = failure_position(e) as int;
            &&& p < n
            &&& forall|i: int| 0 <= i < p ==> lookup_key(#[trigger] keys[i], parity_at(i)) is Some
            &&& lookup_key(keys[p], parity_at(p)) is None
            &&& match lookup_key(keys[p], opposite(parity_at(p))) {
                Some(v) => e == DecodeFailure::ParityError {
                    position: p as nat,
                    word: ws[p],
                    actual_parity: SwappingParity { parity: opposite(parity_at(p)) },
                    byte_value: v,
                },
                None => e == DecodeFailure::UnrecognizedWord { position: p as nat, word: ws[p] },
            }
        },
    decreases n,
{
    if n > 0 {
        lemma_decode_keys_words(ws, keys, (n - 1) as nat);
        let prev = decode_keys(ws, keys, (n - 1) as nat);
        if prev is Ok {
            let bytes = prev->Ok_0;
            if lookup_key(keys[n - 1], parity_at(n - 1)) is Some {
                assert forall|i: int|
                    0 <= i < n implies lookup_key(#[trigger] keys[i], parity_at(i)) == Some(
                    bytes.push(lookup_key(keys[n - 1], parity_at(n - 1))->Some_0)[i],
                ) by {
                    if i < n - 1 {
                        assert(lookup_key(keys[i], parity_at(i)) == Some(bytes[i]));
                    }
                }
            }
        } else {
            assert(!(forall|i: int|
                0 <= i < n ==> lookup_key(#[trigger] keys[i], parity_at(i)) is Some)) by {
                let p = failure_position(prev->Err_0) as int;
                assert(lookup_key(keys[p], parity_at(p)) is None);
            }
        }
    }
}

/// Decoding a text succeeds exactly when each of its words (split at white space) is in
/// the list of its position's parity, and then gives, for each word, the byte it stands
/// for in that list. Otherwise it fails at the first word that is not: with a parity
/// error carrying the byte of the other list when the word is there, and as an
/// unrecognized word when it is in neither list.
pub proof fn lemma_decode_words(s: Seq<char>)
    ensures
        ({
            let ws = split_ws(s);
            &&& (forall|i: int| 0 <= i < ws.len() ==> lookup(#[trigger] ws[i], parity_at(i)) is Some)
                <==> decode_spec(s) is Ok
            &&& decode_spec(s) matches Ok(bytes) ==> {
                &&& bytes.len() == ws.len()
                &&& forall|i: int|
                    0 <= i < ws.len() ==> lookup(#[trigger] ws[i], parity_at(i)) == Some(bytes[i])
            }
            &&& decode_spec(s) matches Err(e) ==> {
                let p = failure_position(e) as int;
                &&& p < ws.len()
                &&& forall|i: int| 0 <= i < p ==> lookup(#[trigger] ws[i], parity_at(i)) is Some
                &&& lookup(ws[p], parity_at(p)) is None
                &&& match lookup(ws[p], opposite(parity_at(p))) {
                    Some(v) => e == DecodeFailure::ParityError {
                        position: p as nat,
                        word: ws[p],
                        actual_parity: SwappingParity { parity: opposite(parity_at(p)) },
                        byte_value: v,
                    },
                    None => e == DecodeFailure::UnrecognizedWord { position: p as nat, word: ws[p] },
                }
            }
        }),
{
    let ws = split_ws(s);
    let keys = ws.map_values(|w: Seq<char>| lookup_form(w));
    lemma_decode_keys_words(ws, keys, ws.len());
    assert forall|i: int| 0 <= i < ws.len() implies keys[i] == lookup_form(#[trigger] ws[i]) by {}
}

/// Decode a string of PGP Word List words into bytes.
pub fn decode(input: &str) -> (r: Result<Vec<u8>, DecodeError>)
    ensures
        decode_result_view(r) == decode_spec(input@),
        decode_result_view(r) == decode_lowercase_spec(input@),
{
    let mut parity: SwappingParity = SwappingParity::new(Parity::Even);
    let mut result: Vec<u8> = Vec::new();
    let keys_even = lowercase_words(Parity::Even);
    let keys_odd = lowercase_words(Parity::Odd);
    let words = split_whitespace(input);
    let ghost ws = split_ws(input@);
    let ghost kf = ws.map_values(|w: Seq<char>| lookup_form(w));
    let ghost ku = ws.map_values(|w: Seq<char>| unicode_lowercase(w));
    assert(ws.len() == words@.len());
    for position in 0..words.len()
        invariant
            strings_view(words@) == ws,
            ws == split_ws(input@),
            kf == ws.map_values(|w: Seq<char>| lookup_form(w)),
            ku == ws.map_values(|w: Seq<char>| unicode_lowercase(w)),
            keys_even@.len() == 256,
            keys_odd@.len() == 256,
            forall|b: u8|
                keys_even@[b as int]@ == ascii_lower(#[trigger] word_for(b, Parity::Even)),
            forall|b: u8| keys_odd@[b as int]@ == ascii_lower(#[trigger] word_for(b, Parity::Odd)),
            parity.parity == parity_at(position as int),
            decode_keys(ws, kf, position as nat) == Ok::<Seq<u8>, DecodeFailure>(result@),
            decode_keys(ws, ku, position as nat) == Ok::<Seq<u8>, DecodeFailure>(result@),
    {
        let word: &str = words[position].as_str();
        assert(word@ == ws[position as int]);
        let lowered = str_to_lowercase(word);
        assert(kf[position as int] == lowered@);
        assert(ku[position as int] == lowered@);
        let expected = parity.current_value_with_swap_side_effect();
        let found = match expected {
            Parity::Even => from_lowercase_word(lowered.as_str(), &keys_even, expected),
            Parity::Odd => from_lowercase_word(lowered.as_str(), &keys_odd, expected),
        };
        match found {
            Some(byte) => result.push(byte),
            _ => {
                let other = match parity.parity {
                    Parity::Even => from_lowercase_word(lowered.as_str(), &keys_even, parity.parity),
                    Parity::Odd => from_lowercase_word(lowered.as_str(), &keys_odd, parity.parity),
                };
                let e = match other {
                    Some(byte_value) => DecodeError::ParityError {
                        position,
                        word: word.to_owned(),
                        actual_parity: parity,
                        byte_value,
                    },
                    _ => DecodeError::UnrecognizedWord { position, word: word.to_owned() },
                };
                proof {
                    lemma_failure_persists(ws, kf, (position + 1) as nat, ws.len());
                    lemma_failure_persists(ws, ku, (position + 1) as nat, ws.len());
                }
                return Err(e);
            },
        }
    }
    Ok(result)
}

} // verus!
