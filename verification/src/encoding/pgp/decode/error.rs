//! The ways decoding a text can fail.

use super::super::parity::{opposite, parity_name, SwappingParity};
use vstd::prelude::*;

verus! {

/// Why a text is not a PGP word list encoding.
#[derive(Clone, Debug, PartialEq)]
pub enum DecodeError {
    /// The word at `position` is in the list of the other parity: `actual_parity` holds
    /// the parity whose list has it, and `byte_value` the byte it stands for there.
    ParityError { position: usize, word: String, actual_parity: SwappingParity, byte_value: u8 },
    /// The word at `position` is in neither list.
    UnrecognizedWord { position: usize, word: String },
}

/// The content of a `DecodeError`.
pub enum DecodeFailure {
    ParityError { position: nat, word: Seq<char>, actual_parity: SwappingParity, byte_value: u8 },
    UnrecognizedWord { position: nat, word: Seq<char> },
}

impl View for DecodeError {
    type V = DecodeFailure;

    open spec fn view(&self) -> DecodeFailure {
        match self {
            DecodeError::ParityError { position, word, actual_parity, byte_value } => {
                DecodeFailure::ParityError {
                    position: *position as nat,
                    word: word@,
                    actual_parity: *actual_parity,
                    byte_value: *byte_value,
                }
            },
            DecodeError::UnrecognizedWord { position, word } => DecodeFailure::UnrecognizedWord {
                position: *position as nat,
                word: word@,
            },
        }
    }
}

/// The character of a digit (0 to 15) in lower-case hexadecimal.
pub open spec fn digit_char(d: nat) -> char {
    if d == 0 { '0' } else if d == 1 { '1' } else if d == 2 { '2' } else if d == 3 { '3' }
    else if d == 4 { '4' } else if d == 5 { '5' } else if d == 6 { '6' } else if d == 7 { '7' }
    else if d == 8 { '8' } else if d == 9 { '9' } else if d == 10 { 'a' } else if d == 11 { 'b' }
    else if d == 12 { 'c' } else if d == 13 { 'd' } else if d == 14 { 'e' } else { 'f' }
}

/// The digits of `n` in base `base` (2 to 16), most significant first, without
/// leading zeros.
pub open spec fn digits(n: nat, base: nat) -> Seq<char>
    decreases n,
{
    if base < 2 || n < base {
        seq![digit_char(n)]
    } else {
        proof {
            lemma_quotient_smaller(n, base);
        }
        digits(n / base, base).push(digit_char(n % base))
    }
}

/// Dividing by a base of at least 2 makes a number at least that base smaller.
pub proof fn lemma_quotient_smaller(n: nat, base: nat)
    requires
        base >= 2,
        n >= base,
    ensures
        n / base < n,
{
    assert(n / base < n) by (nonlinear_arith)
        requires
            base >= 2,
            n >= base,
    ;
}

/// The English ordinal suffix of `n`: "st", "nd", "rd" or "th".
pub open spec fn ordinal_suffix(n: nat) -> Seq<char> {
    if n % 10 == 1 && n % 100 != 11 {
        "st"@
    } else if n % 10 == 2 && n % 100 != 12 {
        "nd"@
    } else if n % 10 == 3 && n % 100 != 13 {
        "rd"@
    } else {
        "th"@
    }
}

/// The ordinal of `n` in digits: "1st", "2nd", "11th", "23rd", ...
pub open spec fn ordinal(n: nat) -> Seq<char> {
    digits(n, 10) + ordinal_suffix(n)
}

/// The position of the word that a failure is about.
pub open spec fn failure_position(f: DecodeFailure) -> nat {
    match f {
        DecodeFailure::ParityError { position, .. } => position,
        DecodeFailure::UnrecognizedWord { position, .. } => position,
    }
}

/// The text that describes a failure.
pub open spec fn failure_message(f: DecodeFailure) -> Seq<char> {
    let ord = ordinal(failure_position(f) + 1);
    match f {
        DecodeFailure::ParityError { word, actual_parity, byte_value, .. } => "Parity error: the "@
            + ord + " word ('"@ + word + "', decodes to 0x"@ + digits(byte_value as nat, 16)
            + ") matches "@ + parity_name(actual_parity.parity) + " parity, but should be "@
            + parity_name(opposite(actual_parity.parity)),
        DecodeFailure::UnrecognizedWord { word, .. } => "Unrecognized word '"@ + word
            + "' (occurs as "@ + ord + " word)"@,
    }
}

/// The one-character string of a digit (0 to 15) in lower-case hexadecimal.
fn digit_str(d: usize) -> (s: &'static str)
    requires
        d < 16,
    ensures
        s@ == seq![digit_char(d as nat)],
{
    match d {
        0 => { proof { reveal_strlit("0"); } "0" },
        1 => { proof { reveal_strlit("1"); } "1" },
        2 => { proof { reveal_strlit("2"); } "2" },
        3 => { proof { reveal_strlit("3"); } "3" },
        4 => { proof { reveal_strlit("4"); } "4" },
        5 => { proof { reveal_strlit("5"); } "5" },
        6 => { proof { reveal_strlit("6"); } "6" },
        7 => { proof { reveal_strlit("7"); } "7" },
        8 => { proof { reveal_strlit("8"); } "8" },
        9 => { proof { reveal_strlit("9"); } "9" },
        10 => { proof { reveal_strlit("a"); } "a" },
        11 => { proof { reveal_strlit("b"); } "b" },
        12 => { proof { reveal_strlit("c"); } "c" },
        13 => { proof { reveal_strlit("d"); } "d" },
        14 => { proof { reveal_strlit("e"); } "e" },
        _ => { proof { reveal_strlit("f"); } "f" },
    }
}

/// Appends the digits of `n` in base `base` to `out`.
fn push_digits(out: &mut String, n: usize, base: usize)
    requires
        2 <= base <= 16,
    ensures
        final(out)@ == old(out)@ + digits(n as nat, base as nat),
    decreases n,
{
    if n >= base {
        proof {
            lemma_quotient_smaller(n as nat, base as nat);
        }
        push_digits(out, n / base, base);
    }
    let d = digit_str(n % base);
    out.append(d);
    proof {
        if n >= base {
            assert(digits(n as nat, base as nat) == digits((n / base) as nat, base as nat).push(
                digit_char((n % base) as nat),
            ));
        } else {
            vstd::arithmetic::div_mod::lemma_small_mod(n as nat, base as nat);
        }
        assert(out@ =~= old(out)@ + digits(n as nat, base as nat));
    }
}

impl DecodeError {
    /// The position of the word that the error is about.
    pub fn position(&self) -> (p: usize)
        ensures
            p == failure_position(self@),
    {
        match self {
            Self::ParityError { position, .. } => *position,
            Self::UnrecognizedWord { position, .. } => *position,
        }
    }

    /// The position of the word, counted from 1, as an English ordinal ("1st", "22nd").
    pub fn position_as_ordinal_string(&self) -> (s: String)
        requires
            failure_position(self@) < usize::MAX,
        ensures
            s@ == ordinal(failure_position(self@) + 1),
    {
        let ordinal = self.position() + 1;
        let mut out = String::new();
        push_digits(&mut out, ordinal, 10);
        let suffix = if ordinal % 10 == 1 && ordinal % 100 != 11 {
            "st"
        } else if ordinal % 10 == 2 && ordinal % 100 != 12 {
            "nd"
        } else if ordinal % 10 == 3 && ordinal % 100 != 13 {
            "rd"
        } else {
            "th"
        };
        out.append(suffix);
        out
    }

    /// The text that describes the error.
    pub fn message(&self) -> (s: String)
        requires
            failure_position(self@) < usize::MAX,
        ensures
            s@ == failure_message(self@),
    {
        let ord = self.position_as_ordinal_string();
        match self {
            Self::ParityError { word, actual_parity, byte_value, .. } => {
                let mut out = String::from_str("Parity error: the ");
                out.append(ord.as_str());
                out.append(" word ('");
                out.append(word.as_str());
                out.append("', decodes to 0x");
                push_digits(&mut out, *byte_value as usize, 16);
                out.append(") matches ");
                out.append(actual_parity.parity.name());
                out.append(" parity, but should be ");
                out.append(actual_parity.other().name());
                out
            },
            Self::UnrecognizedWord { word, .. } => {
                let mut out = String::from_str("Unrecognized word '");
                out.append(word.as_str());
                out.append("' (occurs as ");
                out.append(ord.as_str());
                out.append(" word)");
                out
            },
        }
    }
}

} // verus!
