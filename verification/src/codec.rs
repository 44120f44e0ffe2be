use aes_gcm::aead::{Aead, KeyInit};
use aes_gcm::{Aes256Gcm, Key, Nonce};
use flate2::read::GzDecoder;
use flate2::write::GzEncoder;
use flate2::Compression;
use std::io::{BufReader, BufWriter};
use vstd::prelude::*;

verus! {

/// The longest plaintext that AES-GCM seals: 2^36 bytes.
pub const SEAL_LIMIT: u64 = 68719476736;

/// What AES-256-GCM makes of `plaintext` under `key` and `nonce`, with no
/// associated data: the ciphertext and then the 16-byte tag.
pub uninterp spec fn aes256_gcm_sealed(key: Seq<u8>, nonce: Seq<u8>, plaintext: Seq<u8>) -> Seq<
    u8,
>;

/// The plaintext that AES-256-GCM recovers from `sealed` under `key` and
/// `nonce`, where the tag holds; `None` where it does not.
pub uninterp spec fn aes256_gcm_opened(key: Seq<u8>, nonce: Seq<u8>, sealed: Seq<u8>) -> Option<
    Seq<u8>,
>;

/// The gzip stream that the encoder makes of `data` at level 6; `None` where
/// it reports a failure.
pub uninterp spec fn gzip_stream(data: Seq<u8>) -> Option<Seq<u8>>;

/// The data that the decoder reads out of the one gzip member at the start of
/// `stream`; `None` where the stream is damaged.
pub uninterp spec fn gunzipped(stream: Seq<u8>) -> Option<Seq<u8>>;

#[verifier::external_type_specification]
#[verifier::external_body]
pub struct ExAeadError(aes_gcm::Error);

/// `Aes256Gcm::new` and `Aead::encrypt` of the aes-gcm crate. The call fails
/// for a plaintext of more than 2^36 bytes and for no other. Its result
/// depends on the three arguments alone, is the plaintext's length and the 16
/// bytes of the tag long, and `Aead::decrypt` with the same key and nonce
/// recovers the plaintext from it.
#[verifier::external_body]
pub(crate) fn aes256_gcm_encrypt(key: &[u8; 32], nonce: &[u8; 12], plaintext: &[u8]) -> (sealed:
    Result<Vec<u8>, aes_gcm::Error>)
    ensures
        sealed is Ok <==> plaintext@.len() <= SEAL_LIMIT,
        sealed matches Ok(bytes) ==> bytes@ == aes256_gcm_sealed(key@, nonce@, plaintext@),
        sealed matches Ok(bytes) ==> bytes@.len() == plaintext@.len() + 16,
        sealed matches Ok(bytes) ==> aes256_gcm_opened(key@, nonce@, bytes@) == Some(plaintext@),
{
    let cipher = Aes256Gcm::new(Key::<Aes256Gcm>::from_slice(key));
    cipher.encrypt(Nonce::from_slice(nonce), plaintext)
}

/// `Aes256Gcm::new` and `Aead::decrypt` of the aes-gcm crate. The call fails
/// where `sealed` is shorter than a tag or the tag does not hold; whether it
/// does, and what it returns, depends on the three arguments alone.
#[verifier::external_body]
pub(crate) fn aes256_gcm_decrypt(key: &[u8; 32], nonce: &[u8; 12], sealed: &[u8]) -> (opened:
    Result<Vec<u8>, aes_gcm::Error>)
    ensures
        match opened {
            Ok(bytes) => aes256_gcm_opened(key@, nonce@, sealed@) == Some(bytes@),
            Err(_) => aes256_gcm_opened(key@, nonce@, sealed@) is None,
        },
{
    let cipher = Aes256Gcm::new(Key::<Aes256Gcm>::from_slice(key));
    cipher.decrypt(Nonce::from_slice(nonce), sealed)
}

/// `GzEncoder::new` with `Compression::new(6)`, fed through `std::io::copy`,
/// and `GzEncoder::finish`, of the flate2 crate, writing into a vector.
/// Whether the call fails, and the stream it makes, depend on `data` alone.
/// The stream has a header of ten bytes and a trailer of eight, and
/// `GzDecoder` reads `data` back out of it.
#[verifier::external_body]
pub(crate) fn gzip_compress(data: &[u8]) -> (packed: Result<Vec<u8>, std::io::Error>)
    ensures
        match packed {
            Ok(stream) => gzip_stream(data@) == Some(stream@),
            Err(_) => gzip_stream(data@) is None,
        },
        packed matches Ok(stream) ==> stream@.len() >= 18,
        packed matches Ok(stream) ==> gunzipped(stream@) == Some(data@),
{
    let mut encoder = GzEncoder::new(Vec::new(), Compression::new(6));
    std::io::copy(&mut BufReader::new(data), &mut encoder)?;
    encoder.finish()
}

/// `GzDecoder::new` of the flate2 crate, read to its end through
/// `std::io::copy`. Whether the call fails, and the data it returns, depend
/// on `stream` alone.
#[verifier::external_body]
pub(crate) fn gzip_decompress(stream: &[u8]) -> (unpacked: Result<Vec<u8>, std::io::Error>)
    ensures
        match unpacked {
            Ok(data) => gunzipped(stream@) == Some(data@),
            Err(_) => gunzipped(stream@) is None,
        },
{
    let mut data = Vec::new();
    std::io::copy(&mut GzDecoder::new(stream), &mut BufWriter::new(&mut data))?;
    Ok(data)
}

} // verus!
