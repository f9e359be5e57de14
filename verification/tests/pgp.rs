use mjecrypto::encoding::pgp::{
    decode, encode, for_byte, from_word, DecodeError, Parity, SwappingParity,
};
use mjecrypto::encoding::pgp::decode::lowercase_words;
use mjecrypto::encoding::pgp::text::{is_whitespace_char, split_whitespace};
use quickcheck::QuickCheck;

fn assert_ordinal_suffix(ordinal_position: usize, suffix: &str) {
    assert!(ordinal_position > 0, "Ordinal position must be positive!");
    let err = DecodeError::UnrecognizedWord {
        word: String::from(""),
        position: ordinal_position - 1,
    };
    assert_eq!(
        err.position_as_ordinal_string(),
        format!("{}{}", ordinal_position, suffix)
    );
}

#[test]
fn test_decode_error_ordinals() {
    assert_ordinal_suffix(1, "st");
    assert_ordinal_suffix(2, "nd");
    assert_ordinal_suffix(3, "rd");
    assert_ordinal_suffix(4, "th");
    assert_ordinal_suffix(10, "th");
    assert_ordinal_suffix(11, "th");
    assert_ordinal_suffix(12, "th");
    assert_ordinal_suffix(13, "th");
    assert_ordinal_suffix(14, "th");
    assert_ordinal_suffix(20, "th");
    assert_ordinal_suffix(21, "st");
    assert_ordinal_suffix(22, "nd");
    assert_ordinal_suffix(23, "rd");
    assert_ordinal_suffix(24, "th");
    assert_ordinal_suffix(100, "th");
    assert_ordinal_suffix(101, "st");
    assert_ordinal_suffix(102, "nd");
    assert_ordinal_suffix(103, "rd");
    assert_ordinal_suffix(104, "th");
    assert_ordinal_suffix(110, "th");
    assert_ordinal_suffix(111, "th");
    assert_ordinal_suffix(112, "th");
    assert_ordinal_suffix(113, "th");
    assert_ordinal_suffix(114, "th");
}

fn encode_is_inverse_of_decode_property(input: Vec<u8>) -> bool {
    decode(&encode(input.as_slice()).join(" ")) == Ok(input)
}

#[test]
fn encode_is_inverse_of_decode() {
    QuickCheck::new()
        .tests(200)
        .quickcheck(encode_is_inverse_of_decode_property as fn(Vec<u8>) -> bool);
}

const EXAMPLE_BYTES: [u8; 20] = [
    0xE5, 0x82, 0x94, 0xF2, 0xE9, 0xA2, 0x27, 0x48, 0x6E, 0x8B, 0x06, 0x1B, 0x31, 0xCC, 0x52,
    0x8F, 0xD7, 0xFA, 0x3F, 0x19,
];

const EXAMPLE_TEXT: &str = "topmost Istanbul Pluto vagabond treadmill Pacific brackish dictator goldfish Medusa afflict bravado chatter revolver Dupont midsummer stopwatch whimsical cowbell bottomless";

#[test]
fn encode_example() {
    assert_eq!(encode(&EXAMPLE_BYTES).join(" "), EXAMPLE_TEXT);
}

#[test]
fn decode_example() {
    assert_eq!(decode(EXAMPLE_TEXT), Ok(EXAMPLE_BYTES.to_vec()));
}

#[test]
fn encode_and_decode_every_byte_at_both_parities() {
    let all: Vec<u8> = (0..=255u8).collect();
    let mut shifted = vec![0u8];
    shifted.extend_from_slice(&all);
    for input in [all, shifted] {
        let words = encode(&input);
        assert_eq!(words.len(), input.len());
        assert_eq!(decode(&words.join(" ")), Ok(input));
    }
}

#[test]
fn encode_of_nothing_is_no_words() {
    assert!(encode(&[]).is_empty());
    assert_eq!(decode(""), Ok(vec![]));
    assert_eq!(decode(" \t\n "), Ok(vec![]));
}

#[test]
fn first_and_last_words_of_each_list() {
    assert_eq!(for_byte(0x00, Parity::Even), "aardvark");
    assert_eq!(for_byte(0xFF, Parity::Even), "Zulu");
    assert_eq!(for_byte(0x00, Parity::Odd), "adroitness");
    assert_eq!(for_byte(0xFF, Parity::Odd), "Yucatan");
    assert_eq!(for_byte(0x0A, Parity::Odd), "Apollo");
}

#[test]
fn from_word_ignores_letter_case() {
    assert_eq!(from_word("ZULU", Parity::Even), Some(0xFF));
    assert_eq!(from_word("zulu", Parity::Even), Some(0xFF));
    assert_eq!(from_word("aPoLLo", Parity::Odd), Some(0x0A));
    assert_eq!(from_word("zulu", Parity::Odd), None);
    assert_eq!(from_word("zulus", Parity::Even), None);
    assert_eq!(from_word("", Parity::Even), None);
}

#[test]
fn from_word_uses_unicode_lower_case() {
    // U+212A KELVIN SIGN has the lower-case form 'k'.
    assert_eq!(from_word("\u{212A}laxon", Parity::Even), Some(0x7D));
    assert_eq!(from_word("\u{212A}LAXON", Parity::Even), Some(0x7D));
    assert_eq!(from_word("kl\u{e4}xon", Parity::Even), None);
}

#[test]
fn decode_splits_at_any_white_space() {
    assert_eq!(
        decode("  TOPMOST\tistanbul\n\u{a0}pluto\u{3000}VAGABOND  "),
        Ok(vec![0xE5, 0x82, 0x94, 0xF2])
    );
}

#[test]
fn decode_reports_unrecognized_word() {
    let err = decode("topmost Istanbul foo Pluto").unwrap_err();
    assert_eq!(
        err,
        DecodeError::UnrecognizedWord { position: 2, word: String::from("foo") }
    );
    assert_eq!(err.message(), "Unrecognized word 'foo' (occurs as 3rd word)");
}

#[test]
fn decode_reports_parity_error() {
    // "Istanbul" is odd word 0x82, but position 0 is even.
    let err = decode("Istanbul topmost").unwrap_err();
    assert_eq!(
        err,
        DecodeError::ParityError {
            position: 0,
            word: String::from("Istanbul"),
            actual_parity: SwappingParity { parity: Parity::Odd },
            byte_value: 0x82,
        }
    );
    assert_eq!(
        err.message(),
        "Parity error: the 1st word ('Istanbul', decodes to 0x82) matches odd parity, but should be even"
    );
}

#[test]
fn decode_reports_first_failure_only() {
    let err = decode("topmost topmost bogus").unwrap_err();
    assert_eq!(
        err,
        DecodeError::ParityError {
            position: 1,
            word: String::from("topmost"),
            actual_parity: SwappingParity { parity: Parity::Even },
            byte_value: 0xE5,
        }
    );
    assert_eq!(
        err.message(),
        "Parity error: the 2nd word ('topmost', decodes to 0xe5) matches even parity, but should be odd"
    );
}

#[test]
fn message_of_parity_error_with_small_byte() {
    let err = decode("aardvark aardvark").unwrap_err();
    assert_eq!(
        err.message(),
        "Parity error: the 2nd word ('aardvark', decodes to 0x0) matches even parity, but should be odd"
    );
    assert_eq!(err.position(), 1);
}

#[test]
fn swapping_parity_alternates() {
    let mut p = SwappingParity::new(Parity::Even);
    assert_eq!(p.other(), Parity::Odd);
    assert_eq!(p.current_value_with_swap_side_effect(), Parity::Even);
    assert_eq!(p.current_value_with_swap_side_effect(), Parity::Odd);
    assert_eq!(p.current_value_with_swap_side_effect(), Parity::Even);
    assert_eq!(p.parity, Parity::Odd);
    assert_eq!(Parity::Even.other().other(), Parity::Even);
    assert_eq!(Parity::Odd.name(), "odd");
}

const WHITE_SPACE: [char; 25] = [
    '\u{9}', '\u{a}', '\u{b}', '\u{c}', '\u{d}', ' ', '\u{85}', '\u{a0}', '\u{1680}', '\u{2000}',
    '\u{2001}', '\u{2002}', '\u{2003}', '\u{2004}', '\u{2005}', '\u{2006}', '\u{2007}',
    '\u{2008}', '\u{2009}', '\u{200a}', '\u{2028}', '\u{2029}', '\u{202f}', '\u{205f}',
    '\u{3000}',
];

#[test]
fn white_space_is_the_listed_set() {
    for c in (0..=0x10FFFFu32).filter_map(char::from_u32) {
        assert_eq!(c.is_whitespace(), WHITE_SPACE.contains(&c), "{:?}", c);
        assert_eq!(is_whitespace_char(c), c.is_whitespace(), "{:?}", c);
    }
}

#[test]
fn split_whitespace_agrees_with_str() {
    let texts = [
        "",
        "   ",
        "one",
        " one two  three ",
        "a\u{85}b\u{2028}c\u{3000}\u{3000}d",
        "\u{e9}t\u{e9} caf\u{e9}\t\u{212A}",
    ];
    for t in texts.iter() {
        let ours = split_whitespace(t);
        let std_words: Vec<String> = t.split_whitespace().map(String::from).collect();
        assert_eq!(ours, std_words);
    }
    for c in WHITE_SPACE.iter() {
        let text = format!("topmost{}Istanbul", c);
        assert_eq!(decode(&text), Ok(vec![0xE5, 0x82]));
    }
}

#[test]
fn lowercase_words_are_distinct_lower_case_words() {
    for parity in [Parity::Even, Parity::Odd] {
        let keys = lowercase_words(parity);
        assert_eq!(keys.len(), 256);
        for b in 0..=255u8 {
            let word = for_byte(b, parity);
            assert!(!word.is_empty());
            assert!(!word.chars().any(char::is_whitespace));
            assert_eq!(keys[b as usize], word.to_lowercase());
            assert_eq!(from_word(word, parity), Some(b));
        }
        let mut sorted = keys.clone();
        sorted.sort();
        sorted.dedup();
        assert_eq!(sorted.len(), 256);
    }
    assert_eq!(lowercase_words(Parity::Even)[0x13], "aztec");
}

#[test]
fn decode_ignores_case_and_spacing() {
    let a = decode("topmost Istanbul bogus");
    let b = decode("\tTOPMOST\u{3000}istanbul   BOGUS\n");
    assert_eq!(a.clone().map_err(|e| e.position()), b.clone().map_err(|e| e.position()));
    assert!(matches!(b, Err(DecodeError::UnrecognizedWord { position: 2, .. })));
    assert_eq!(decode("aZtEc  aDrOiTnEsS"), decode("aztec adroitness"));
    assert_eq!(decode("\u{212A}LAXON"), decode("klaxon"));
}

#[test]
fn encode_splits_at_even_lengths() {
    let a = [0x01u8, 0x02, 0x03, 0x04];
    let b = [0xFEu8, 0xFF, 0x00];
    let whole = [&a[..], &b[..]].concat();
    assert_eq!(encode(&whole), [encode(&a), encode(&b)].concat());
    // After an odd number of bytes the parities of the rest are swapped.
    let odd = [0x01u8];
    assert_ne!(encode(&[&odd[..], &b[..]].concat())[1..], encode(&b)[..]);
}
