//! The PGP word list encoding: each byte becomes a word, taken from the even list at
//! even positions and from the odd list at odd positions.

pub mod decode;
pub mod encode;
pub mod parity;
pub mod roundtrip;
pub mod text;
pub mod wordlists;

pub use self::decode::{decode, from_word, DecodeError};
pub use self::encode::{encode, for_byte};
pub use self::parity::{Parity, SwappingParity};
