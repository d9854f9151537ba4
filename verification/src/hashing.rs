//! Content hashing: the blake3 digest of a byte sequence, rendered as its
//! canonical lowercase hexadecimal string.

use vstd::prelude::*;

verus! {

/// The lowercase hexadecimal rendering of the blake3 hash of `bytes`.
///
/// The digest itself is left uninterpreted: it is a pure function of the
/// input bytes, and nothing more is assumed of it.
pub uninterp spec fn blake3_hex_of(bytes: Seq<u8>) -> Seq<char>;

/// A character is a lowercase hexadecimal digit.
pub open spec fn is_lower_hex_digit(c: char) -> bool {
    ('0' <= c && c <= '9') || ('a' <= c && c <= 'f')
}

/// Relies on `blake3::hash` and `blake3::Hash`'s `Display` impl: the digest
/// is 32 bytes, a function of the input bytes alone, and `to_string` renders
/// it as 64 lowercase hexadecimal characters.
#[verifier::external_body]
pub fn blake3_hex(content: &[u8]) -> (r: String)
    ensures
        r@ == blake3_hex_of(content@),
        r@.len() == 64,
        forall|i: int| 0 <= i < 64 ==> is_lower_hex_digit(#[trigger] r@[i]),
{
    blake3::hash(content).to_string()
}

/// The content hash is determined by the bytes alone: two inputs with
/// identical byte content hash to the identical string, wherever those
/// bytes came from.
pub proof fn lemma_hash_deterministic(a: Seq<u8>, b: Seq<u8>)
    requires
        a == b,
    ensures
        blake3_hex_of(a) == blake3_hex_of(b),
{
}

} // verus!
