//! Hash functions.

pub mod sha256;
