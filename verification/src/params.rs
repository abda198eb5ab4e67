//! Fixed derivation parameters.
//!
//! Any change here is a breaking change: checksums computed under different
//! parameters are not comparable.
use vstd::prelude::*;

verus! {

/// Required vocabulary size: `2^BITS_PER_WORD` words.
pub const WORD_COUNT: usize = 2048;

/// Key-stretching iteration count (cost factor).
pub const ITERATIONS: u32 = 40000;

/// Number of words in a checksum.
pub const CHECKSUM_LEN: usize = 5;

/// Bits consumed per output word; tied to the vocabulary size of 2048.
pub const BITS_PER_WORD: usize = 11;

/// Bytes of key material needed to hold `CHECKSUM_LEN * BITS_PER_WORD` bits.
pub const KEY_BYTECOUNT: usize = (CHECKSUM_LEN * BITS_PER_WORD + 7) / 8;

} // verus!
