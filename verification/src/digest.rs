use sha2::{Digest, Sha256};
use vstd::prelude::*;

verus! {

/// The SHA-256 digest of `data`: 32 bytes.
pub uninterp spec fn sha256(data: Seq<u8>) -> Seq<u8>;

/// The CRC-32 (IEEE) checksum of `data`.
pub uninterp spec fn crc32(data: Seq<u8>) -> u32;

/// The characters that stand for the sixteen values of a half byte.
pub open spec fn hex_digits() -> Seq<char> {
    seq!['0', '1', '2', '3', '4', '5', '6', '7', '8', '9', 'a', 'b', 'c', 'd', 'e', 'f']
}

/// `data` in lowercase hexadecimal: two characters for each byte, the high
/// half first.
pub open spec fn hex_lower(data: Seq<u8>) -> Seq<char> {
    Seq::new(
        2 * data.len(),
        |i: int|
            if i % 2 == 0 {
                hex_digits()[data[i / 2] as int / 16]
            } else {
                hex_digits()[data[i / 2] as int % 16]
            },
    )
}

/// `Sha256::default`, `Digest::update` and `Digest::finalize` of the sha2
/// crate: the digest of `first` followed by `second`, fed to one hasher in
/// that order.
#[verifier::external_body]
pub(crate) fn sha256_of_parts(first: &[u8], second: &[u8]) -> (digest: [u8; 32])
    ensures
        digest@ == sha256(first@ + second@),
{
    let mut hasher = Sha256::default();
    hasher.update(first);
    hasher.update(second);
    hasher.finalize().into()
}

/// `crc32fast::hash`: the CRC-32 checksum of a byte slice.
#[verifier::external_body]
pub(crate) fn crc32_of(data: &[u8]) -> (sum: u32)
    ensures
        sum == crc32(data@),
{
    crc32fast::hash(data)
}

/// `hex::encode`: each byte as two lowercase hexadecimal digits.
#[verifier::external_body]
pub(crate) fn hex_encode(data: &[u8]) -> (text: String)
    ensures
        text@ == hex_lower(data@),
{
    hex::encode(data)
}

/// The SHA-256 digest of `data`.
pub fn sha256_digest(data: &[u8]) -> (digest: [u8; 32])
    ensures
        digest@ == sha256(data@),
{
    let empty: [u8; 0] = [];
    assert(data@ + empty@ =~= data@);
    sha256_of_parts(data, &empty)
}

/// The SHA-256 digest of `data` in lowercase hexadecimal: 64 ASCII
/// characters.
pub fn sha256_hex(data: &[u8]) -> (text: String)
    ensures
        text@ == hex_lower(sha256(data@)),
        text@.len() == 64,
        vstd::utf8::is_ascii_chars(text@),
{
    let digest = sha256_digest(data);
    proof {
        lemma_hex_is_ascii(digest@);
    }
    hex_encode(&digest)
}

/// A hexadecimal text is made of ASCII characters.
pub proof fn lemma_hex_is_ascii(data: Seq<u8>)
    ensures
        vstd::utf8::is_ascii_chars(hex_lower(data)),
{
    assert forall|i: int| 0 <= i < hex_lower(data).len() implies (hex_lower(data)[i] as u32)
        < 128 by {
        let digit = if i % 2 == 0 {
            data[i / 2] as int / 16
        } else {
            data[i / 2] as int % 16
        };
        assert(0 <= digit < 16);
        assert(hex_lower(data)[i] == hex_digits()[digit]);
    }
}

} // verus!
