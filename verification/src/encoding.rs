//! Encodings of byte strings.

pub mod pgp;
