//! Deriving a human-pronounceable checksum from an identifier string.
//!
//! The identifier's bytes are stretched into a short buffer of key
//! material, the buffer is read as one big-endian integer, the excess
//! low-order bits are discarded, and the rest is split into fixed-width
//! groups, each of which indexes a vocabulary of `WORD_COUNT` words.
use vstd::prelude::*;

use vstd::arithmetic::power2::{
    lemma2_to64, lemma2_to64_rest, lemma_pow2_adds, lemma_pow2_strictly_increases, pow2,
};
use vstd::bits::{
    lemma_low_bits_mask_values, lemma_u64_low_bits_mask_is_mod, lemma_u64_shr_is_div,
};

use crate::params::{BITS_PER_WORD, CHECKSUM_LEN, KEY_BYTECOUNT, WORD_COUNT};
use crate::stretch::{stretch_key, stretched_key};

verus! {

/// Error taxonomy of the derivation.
#[derive(Clone, Copy, Debug, PartialEq, Eq, Structural)]
pub enum ChecksumError {
    /// The vocabulary does not hold exactly `WORD_COUNT` words.
    InvalidVocabulary,
}

/// The key bytes read as a single unsigned integer, most-significant
/// byte first.
pub open spec fn be_int(key: Seq<u8>) -> nat
    decreases key.len(),
{
    if key.len() == 0 {
        0
    } else {
        be_int(key.drop_last()) * 256 + key.last() as nat
    }
}

/// How many low-order bits of the key material are discarded so that the
/// remaining bits split evenly into `CHECKSUM_LEN` groups of
/// `BITS_PER_WORD` bits each.
pub open spec fn dropped_bits() -> nat {
    ((8 * KEY_BYTECOUNT as int) % (BITS_PER_WORD as int)) as nat
}

/// The retained key material of an identifier: its stretched key bytes as
/// a big-endian integer, with the excess low-order bits shifted out.
pub open spec fn trimmed_key_int(address: Seq<char>) -> nat {
    be_int(stretched_key(address)) / pow2(dropped_bits())
}

/// The vocabulary index of checksum word `i`: group `i` of the retained
/// key material, `BITS_PER_WORD` bits wide, most-significant group first.
pub open spec fn word_index(address: Seq<char>, i: int) -> nat {
    (trimmed_key_int(address) / pow2(((CHECKSUM_LEN - 1 - i) * BITS_PER_WORD) as nat)) % (
    WORD_COUNT as nat)
}

/// The checksum of an identifier against a vocabulary: for each of the
/// `CHECKSUM_LEN` groups, in order, the word at that group's index.
pub open spec fn spec_checksum(address: Seq<char>, words: Seq<String>) -> Seq<String> {
    Seq::new(CHECKSUM_LEN as nat, |i: int| words[word_index(address, i) as int])
}

/// Whether `word_list` satisfies the vocabulary invariant: exactly
/// `WORD_COUNT` words.
pub fn vocabulary_is_valid(word_list: &[String]) -> (b: bool)
    ensures
        b == (word_list@.len() == WORD_COUNT),
{
    word_list.len() == WORD_COUNT
}

/// Reads the key bytes as a single big-endian unsigned integer.
fn key_to_int(key: &Vec<u8>) -> (k: u64)
    requires
        key@.len() == KEY_BYTECOUNT,
    ensures
        k == be_int(key@),
{
    let mut k: u64 = 0;
    let mut j: usize = 0;
    proof {
        lemma2_to64();
    }
    while j < key.len()
        invariant
            key@.len() == KEY_BYTECOUNT,
            j <= key@.len(),
            k == be_int(key@.take(j as int)),
            k < pow2((8 * j) as nat),
        decreases key@.len() - j,
    {
        proof {
            lemma2_to64();
            lemma2_to64_rest();
            lemma_pow2_adds((8 * j) as nat, 8);
            if 8 * j + 8 < 56 {
                lemma_pow2_strictly_increases((8 * j + 8) as nat, 56);
            }
            assert(k * 256 + key@[j as int] < pow2((8 * j + 8) as nat));
        }
        k = k * 256 + (key[j] as u64);
        proof {
            assert(key@.take(j as int + 1).drop_last() =~= key@.take(j as int));
        }
        j = j + 1;
    }
    proof {
        assert(key@.take(key@.len() as int) =~= key@);
    }
    k
}

/// One `BITS_PER_WORD`-bit group of the retained key material, counted
/// from the most significant group: the bit-extraction helper of the
/// derivation.
pub fn extract_group(key_int: u64, group_index: usize) -> (idx: u64)
    requires
        group_index < CHECKSUM_LEN,
    ensures
        idx == (key_int as nat / pow2(((CHECKSUM_LEN - 1 - group_index) * BITS_PER_WORD) as nat))
            % (WORD_COUNT as nat),
        idx < WORD_COUNT,
{
    let shift: u64 = ((CHECKSUM_LEN - 1 - group_index) * BITS_PER_WORD) as u64;
    let shifted: u64 = key_int >> shift;
    let idx: u64 = shifted & 0x7FF;
    proof {
        lemma_u64_shr_is_div(key_int, shift);
        lemma_low_bits_mask_values();
        lemma_u64_low_bits_mask_is_mod(shifted, 11);
        lemma2_to64();
    }
    idx
}

/// Derives the checksum of `address` against `word_list`.
///
/// With a full vocabulary this returns exactly `CHECKSUM_LEN` words, the
/// checksum of the identifier; with a vocabulary of any other size it
/// returns `ChecksumError::InvalidVocabulary` and touches nothing.
pub fn address_to_checksum(address: &str, word_list: &[String]) -> (r: Result<
    Vec<String>,
    ChecksumError,
>)
    ensures
        word_list@.len() == WORD_COUNT ==> (r matches Ok(c) && c@ == spec_checksum(
            address@,
            word_list@,
        )),
        word_list@.len() != WORD_COUNT ==> (r matches Err(e)
            && e == ChecksumError::InvalidVocabulary),
{
    if word_list.len() != WORD_COUNT {
        return Err(ChecksumError::InvalidVocabulary);
    }
    let key = stretch_key(address);
    let full: u64 = key_to_int(&key);
    let drop_count: u64 = ((8 * KEY_BYTECOUNT) % BITS_PER_WORD) as u64;
    let key_int: u64 = full >> drop_count;
    proof {
        lemma_u64_shr_is_div(full, drop_count);
        assert(key_int == trimmed_key_int(address@));
    }
    let mut words: Vec<String> = Vec::new();
    let mut i: usize = 0;
    while i < CHECKSUM_LEN
        invariant
            word_list@.len() == WORD_COUNT,
            key_int == trimmed_key_int(address@),
            i <= CHECKSUM_LEN,
            words@.len() == i,
            forall|m: int| 0 <= m < i ==> words@[m] == word_list@[word_index(address@, m) as int],
        decreases CHECKSUM_LEN - i,
    {
        let idx = extract_group(key_int, i);
        words.push(word_list[idx as usize].clone());
        i = i + 1;
    }
    proof {
        assert(words@ =~= spec_checksum(address@, word_list@));
    }
    Ok(words)
}

/// Determinism: the checksum is a function of the identifier and the
/// vocabulary alone, so two derivations of the same pair agree.
pub proof fn lemma_derive_deterministic(
    address: Seq<char>,
    words: Seq<String>,
    c1: Seq<String>,
    c2: Seq<String>,
)
    requires
        c1 == spec_checksum(address, words),
        c2 == spec_checksum(address, words),
    ensures
        c1 == c2,
{
}

/// Index range: each of the `CHECKSUM_LEN` extracted indices lies below
/// `WORD_COUNT`, for every identifier.
pub proof fn lemma_index_range(address: Seq<char>)
    ensures
        forall|i: int| 0 <= i < CHECKSUM_LEN ==> word_index(address, i) < WORD_COUNT,
{
}

/// Output shape: against a full vocabulary, the checksum of any identifier
/// holds exactly `CHECKSUM_LEN` words, each drawn from the vocabulary at
/// that step's extracted index.
pub proof fn lemma_output_shape(address: Seq<char>, words: Seq<String>)
    requires
        words.len() == WORD_COUNT,
    ensures
        spec_checksum(address, words).len() == CHECKSUM_LEN,
        forall|i: int|
            0 <= i < CHECKSUM_LEN ==> word_index(address, i) < words.len()
                && #[trigger] spec_checksum(address, words)[i] == words[word_index(
                address,
                i,
            ) as int],
{
    lemma_index_range(address);
}

} // verus!
