//! Small cryptographic utilities: the SHA-256 hash function and the PGP word
//! list encoding of bytes, each proved to meet its specification.

pub mod encoding;
pub mod hash;
