# mjecrypto

Two small pieces of cryptographic plumbing, written in Verus with their behaviour
proved against specifications:

- `hash::sha256` — SHA-256. `hash` is proved to return the digest that
  `hash::sha256::spec::sha256` defines after FIPS 180-4 (padding, message schedule,
  compression, big-endian output). `get_padding_bytes` is proved to produce exactly
  the padding of that definition.
- `encoding::pgp` — the PGP word list. `encode` turns each byte into a word
  (even list at even positions, odd list at odd positions); `decode` reads such text
  back, splitting at Unicode white space and comparing `str::to_lowercase` forms, and
  reports the first word that is in the wrong list or in neither. Decoding is proved
  to depend only on the lower-case forms of the words, and `lowercase_words` proves
  that each list stays free of duplicates under `str::to_lowercase`. `roundtrip` proves that
  decoding the space-joined encoding of any bytes gives those bytes back;
  `wordlists` proves that the words of each list are distinct.

The word lists are two arrays of 256 words (`wordlists::EVEN`, `wordlists::ODD`).
Words are looked up by a search over the lower-case forms of a list's words, which
`lowercase_words` builds with `str::to_lowercase`; lookup maps of the `phf` crate could
only be built by its macro or by generated code, neither of which the verified
library can hold.

Layout: `src/` is the verified library, `tests/` its tests, `app/` the `Display`
and `Error` impls, which live outside the verified code.
