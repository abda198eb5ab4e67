use crypto_checksum::checksum::{
    address_to_checksum, extract_group, vocabulary_is_valid, ChecksumError,
};
use crypto_checksum::params::{CHECKSUM_LEN, WORD_COUNT};

fn vocab(n: usize) -> Vec<String> {
    let mut words: Vec<String> = Vec::new();
    let mut i: usize = 0;
    while i < n {
        words.push(format!("w{:04}", i));
        i += 1;
    }
    words
}

fn words_for(indices: &[usize]) -> Vec<String> {
    indices.iter().map(|i| format!("w{:04}", i)).collect()
}

#[test]
fn test_checksum() {
    let list = vocab(WORD_COUNT);
    let legit = address_to_checksum("1A1zP1eP5QGefi2DMPTfTL5SLmv7DivfNa", &list).unwrap();
    let poisoned = address_to_checksum("1A1zP1eP5QGefi2DMPTfTL5SLmv7DixfNa", &list).unwrap();
    assert_eq!(legit.len(), CHECKSUM_LEN);
    assert_eq!(poisoned.len(), CHECKSUM_LEN);
    assert_ne!(legit, poisoned);
}

#[test]
fn test_determinism() {
    let list = vocab(WORD_COUNT);
    let first = address_to_checksum("1A1zP1eP5QGefi2DMPTfTL5SLmv7DivfNa", &list).unwrap();
    let second = address_to_checksum("1A1zP1eP5QGefi2DMPTfTL5SLmv7DivfNa", &list).unwrap();
    assert_eq!(first, second);
}

#[test]
fn test_output_shape() {
    let list = vocab(WORD_COUNT);
    let checksum = address_to_checksum("an arbitrary identifier", &list).unwrap();
    assert_eq!(checksum.len(), CHECKSUM_LEN);
    for word in &checksum {
        assert!(list.contains(word));
    }
}

#[test]
fn test_invalid_vocabulary() {
    for n in [0, 1, WORD_COUNT - 1, WORD_COUNT + 1] {
        let list = vocab(n);
        let r = address_to_checksum("1A1zP1eP5QGefi2DMPTfTL5SLmv7DivfNa", &list);
        assert_eq!(r, Err(ChecksumError::InvalidVocabulary));
    }
}

#[test]
fn test_known_vector() {
    let list = vocab(WORD_COUNT);
    let checksum = address_to_checksum("1A1zP1eP5QGefi2DMPTfTL5SLmv7DivfNa", &list).unwrap();
    assert_eq!(checksum, words_for(&[46, 145, 1556, 206, 877]));
}

#[test]
fn test_poisoned_vector() {
    let list = vocab(WORD_COUNT);
    let checksum = address_to_checksum("1A1zP1eP5QGefi2DMPTfTL5SLmv7DixfNa", &list).unwrap();
    assert_eq!(checksum, words_for(&[961, 716, 998, 249, 1737]));
}

#[test]
fn test_empty_identifier() {
    let list = vocab(WORD_COUNT);
    let first = address_to_checksum("", &list).unwrap();
    assert_eq!(first, words_for(&[1344, 1178, 1541, 1839, 1951]));
    let second = address_to_checksum("", &list).unwrap();
    assert_eq!(first, second);
}

#[test]
fn test_long_identifier() {
    let list = vocab(WORD_COUNT);
    let address = "a".repeat(10000);
    let checksum = address_to_checksum(&address, &list).unwrap();
    assert_eq!(checksum, words_for(&[898, 1435, 579, 1210, 442]));
}

#[test]
fn test_extract_group_synthetic() {
    // Five distinct 11-bit groups packed next to each other.
    let key_int: u64 = (1 << 44) | (2 << 33) | (3 << 22) | (4 << 11) | 5;
    for (i, expected) in [1u64, 2, 3, 4, 5].iter().enumerate() {
        assert_eq!(extract_group(key_int, i), *expected);
    }
}

#[test]
fn test_extract_group_saturated() {
    // All 55 retained bits set: every group reads the full 11-bit mask.
    let key_int: u64 = (1 << 55) - 1;
    for i in 0..CHECKSUM_LEN {
        assert_eq!(extract_group(key_int, i), 0x7FF);
    }
}

#[test]
fn test_vocabulary_is_valid() {
    assert!(vocabulary_is_valid(&vocab(WORD_COUNT)));
    assert!(!vocabulary_is_valid(&vocab(WORD_COUNT - 1)));
    assert!(!vocabulary_is_valid(&vocab(0)));
}
