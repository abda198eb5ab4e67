//! Key stretching: the one outside call of the derivation.
use vstd::prelude::*;

use crate::params::{ITERATIONS, KEY_BYTECOUNT};

verus! {

/// The `KEY_BYTECOUNT` bytes of key material that PBKDF2-HMAC-SHA-256
/// produces from the identifier's UTF-8 bytes under the fixed salt and
/// iteration count. A function of the identifier alone: the salt, the
/// iteration count and the output length are constants of this library.
pub uninterp spec fn stretched_key(address: Seq<char>) -> Seq<u8>;

/// Relies on pbkdf2::pbkdf2_hmac with sha2::Sha256: deterministic in the
/// password for a fixed salt, iteration count and output length, and it
/// fills the whole output buffer.
#[verifier::external_body]
pub fn stretch_key(address: &str) -> (key: Vec<u8>)
    ensures
        key@ == stretched_key(address@),
        key@.len() == KEY_BYTECOUNT,
{
    let mut key = [0u8; KEY_BYTECOUNT];
    pbkdf2::pbkdf2_hmac::<sha2::Sha256>(
        address.as_bytes(),
        b"human-readable-checksum",
        ITERATIONS,
        &mut key,
    );
    key.to_vec()
}

} // verus!
