use crate::codec::{
    aes256_gcm_decrypt, aes256_gcm_encrypt, aes256_gcm_opened, aes256_gcm_sealed, gunzipped,
    gzip_compress, gzip_decompress, gzip_stream, SEAL_LIMIT,
};
use crate::digest::{sha256, sha256_of_parts};
use crate::error::{CapsuleError, CapsuleErrorView};
use crate::padding::copy_of;
use crate::wire::{u32_be, u32_to_be_bytes};
use vstd::prelude::*;
use vstd::slice::slice_subrange;
use vstd::string::*;

verus! {

/// The salt hashed behind a passphrase: ASCII `DIG_CAPSULE_SALT_V1`.
pub const CONSENSUS_SALT: [u8; 19] = [
    0x44,
    0x49,
    0x47,
    0x5f,
    0x43,
    0x41,
    0x50,
    0x53,
    0x55,
    0x4c,
    0x45,
    0x5f,
    0x53,
    0x41,
    0x4c,
    0x54,
    0x5f,
    0x56,
    0x31,
];

/// The four bytes in the middle of every nonce: ASCII `DIG1`.
pub const NONCE_LABEL: [u8; 4] = [0x44, 0x49, 0x47, 0x31];

/// The length of a nonce in bytes.
pub const NONCE_SIZE: usize = 12;

/// The key derived from a passphrase: the SHA-256 digest of its UTF-8 bytes
/// followed by the salt.
pub open spec fn consensus_key(passphrase: Seq<char>) -> Seq<u8> {
    sha256(vstd::utf8::encode_utf8(passphrase) + CONSENSUS_SALT@)
}

/// The key that belongs to an optional passphrase.
pub open spec fn key_for(passphrase: Option<Seq<char>>) -> Option<Seq<u8>> {
    match passphrase {
        Some(text) => Some(consensus_key(text)),
        None => None,
    }
}

/// The nonce of chunk `chunk_index`: the index in four bytes, highest first,
/// then `DIG1`, then four zero bytes.
pub open spec fn nonce_for(chunk_index: u32) -> Seq<u8> {
    u32_be(chunk_index) + NONCE_LABEL@ + seq![0u8, 0u8, 0u8, 0u8]
}

/// What encrypting chunk `chunk_index` gives: without a key the chunk itself;
/// with a key the nonce followed by the sealed chunk, and a failure for a
/// chunk longer than the cipher takes.
pub open spec fn sealed_chunk(key: Option<Seq<u8>>, chunk_index: u32, chunk: Seq<u8>) -> Result<
    Seq<u8>,
    CapsuleErrorView,
> {
    match key {
        None => Ok(chunk),
        Some(k) => if chunk.len() <= SEAL_LIMIT {
            Ok(nonce_for(chunk_index) + aes256_gcm_sealed(k, nonce_for(chunk_index), chunk))
        } else {
            Err(CapsuleErrorView::EncryptionFailed)
        },
    }
}

/// What decrypting the data of chunk `chunk_index` gives: without a key the
/// data itself; with a key what the cipher recovers, under the chunk's nonce,
/// from the bytes behind the first twelve.
pub open spec fn opened_chunk(key: Option<Seq<u8>>, chunk_index: u32, data: Seq<u8>) -> Result<
    Seq<u8>,
    CapsuleErrorView,
> {
    match key {
        None => Ok(data),
        Some(k) => if data.len() < 12 {
            Err(CapsuleErrorView::IoError)
        } else {
            match aes256_gcm_opened(k, nonce_for(chunk_index), data.subrange(12, data.len() as int)) {
                Some(plain) => Ok(plain),
                None => Err(CapsuleErrorView::DecryptionFailed),
            }
        },
    }
}

/// What compressing gives: the gzip stream, or an `IoError`.
pub open spec fn compressed(data: Seq<u8>) -> Result<Seq<u8>, CapsuleErrorView> {
    match gzip_stream(data) {
        Some(stream) => Ok(stream),
        None => Err(CapsuleErrorView::IoError),
    }
}

/// What decompressing gives: the data of the gzip stream, or an `IoError`.
pub open spec fn decompressed(stream: Seq<u8>) -> Result<Seq<u8>, CapsuleErrorView> {
    match gunzipped(stream) {
        Some(data) => Ok(data),
        None => Err(CapsuleErrorView::IoError),
    }
}

/// The mathematical value of a step's outcome: the bytes, or the error.
pub open spec fn outcome(result: Result<Vec<u8>, CapsuleError>) -> Result<
    Seq<u8>,
    CapsuleErrorView,
> {
    match result {
        Ok(bytes) => Ok(bytes@),
        Err(error) => Err(error@),
    }
}

/// The steps that turn a chunk into a capsule's payload and back, under one
/// key or under none.
pub struct StreamingCapsuleProcessor {
    pub encryption_key: Option<[u8; 32]>,
}

impl StreamingCapsuleProcessor {
    /// The key as a sequence of bytes, if there is one.
    pub open spec fn key(&self) -> Option<Seq<u8>> {
        match self.encryption_key {
            Some(key) => Some(key@),
            None => None,
        }
    }

    /// A processor for the given passphrase; without one, chunks are not
    /// encrypted.
    pub fn new(encryption_key: Option<String>) -> (made: Result<
        StreamingCapsuleProcessor,
        CapsuleError,
    >)
        ensures
            made matches Ok(processor) && processor.key() == key_for(
                match encryption_key {
                    Some(text) => Some(text@),
                    None => None,
                },
            ),
    {
        let encryption_key = match encryption_key {
            Some(key) => {
                match Self::derive_consensus_key(key.as_str()) {
                    Ok(derived) => Some(derived),
                    Err(error) => {
                        return Err(error);
                    },
                }
            },
            None => None,
        };
        Ok(StreamingCapsuleProcessor { encryption_key })
    }

    /// Derives the 32-byte key from a passphrase.
    pub fn derive_consensus_key(key_str: &str) -> (derived: Result<[u8; 32], CapsuleError>)
        ensures
            derived matches Ok(key) && key@ == consensus_key(key_str@),
    {
        Ok(sha256_of_parts(key_str.as_bytes(), &CONSENSUS_SALT))
    }

    /// The nonce of chunk `chunk_index`.
    pub fn chunk_nonce(chunk_index: u32) -> (nonce: [u8; 12])
        ensures
            nonce@ == nonce_for(chunk_index),
    {
        let index_bytes = u32_to_be_bytes(chunk_index);
        let nonce = [
            index_bytes[0],
            index_bytes[1],
            index_bytes[2],
            index_bytes[3],
            NONCE_LABEL[0],
            NONCE_LABEL[1],
            NONCE_LABEL[2],
            NONCE_LABEL[3],
            0,
            0,
            0,
            0,
        ];
        assert(nonce@ =~= nonce_for(chunk_index));
        nonce
    }

    /// Encrypts chunk `chunk_index`: the nonce, then the sealed chunk, which is
    /// 28 bytes more than the chunk. Without a key the chunk is copied.
    pub fn encrypt_stream(&self, data: &[u8], chunk_index: u32) -> (encrypted: Result<
        Vec<u8>,
        CapsuleError,
    >)
        ensures
            outcome(encrypted) == sealed_chunk(self.key(), chunk_index, data@),
            self.key() is None ==> encrypted is Ok,
            data@.len() <= SEAL_LIMIT ==> encrypted is Ok,
            encrypted matches Ok(bytes) ==> bytes@.len() == data@.len() + (if self.key() is Some {
                28int
            } else {
                0int
            }),
            encrypted matches Ok(bytes) ==> opened_chunk(self.key(), chunk_index, bytes@) == Ok::<
                Seq<u8>,
                CapsuleErrorView,
            >(data@),
    {
        match &self.encryption_key {
            Some(key) => {
                let nonce_bytes = Self::chunk_nonce(chunk_index);
                match aes256_gcm_encrypt(key, &nonce_bytes, data) {
                    Ok(ciphertext) => {
                        let mut encrypted: Vec<u8> = Vec::with_capacity(NONCE_SIZE);
                        encrypted.extend_from_slice(&nonce_bytes);
                        encrypted.extend_from_slice(ciphertext.as_slice());
                        assert(encrypted@ =~= nonce_for(chunk_index) + ciphertext@);
                        assert(encrypted@.subrange(12, encrypted@.len() as int) =~= ciphertext@);
                        Ok(encrypted)
                    },
                    Err(_) => Err(CapsuleError::EncryptionFailed),
                }
            },
            None => Ok(copy_of(data)),
        }
    }

    /// Decrypts the data of chunk `chunk_index`: the first twelve bytes are
    /// passed over, and the rest is opened under the chunk's own nonce.
    /// Without a key the data is copied.
    pub fn decrypt_stream(&self, data: &[u8], chunk_index: u32) -> (decrypted: Result<
        Vec<u8>,
        CapsuleError,
    >)
        ensures
            outcome(decrypted) == opened_chunk(self.key(), chunk_index, data@),
    {
        match &self.encryption_key {
            Some(key) => {
                if data.len() < NONCE_SIZE {
                    return Err(CapsuleError::IoError);
                }
                let nonce_bytes = Self::chunk_nonce(chunk_index);
                let ciphertext = slice_subrange(data, NONCE_SIZE, data.len());
                match aes256_gcm_decrypt(key, &nonce_bytes, ciphertext) {
                    Ok(plaintext) => Ok(plaintext),
                    Err(_) => Err(CapsuleError::DecryptionFailed),
                }
            },
            None => Ok(copy_of(data)),
        }
    }

    /// Compresses `data` into a gzip stream at level 6.
    pub fn compress_stream(&self, data: &[u8]) -> (packed: Result<Vec<u8>, CapsuleError>)
        ensures
            outcome(packed) == compressed(data@),
            packed matches Ok(stream) ==> stream@.len() >= 18 && decompressed(stream@) == Ok::<
                Seq<u8>,
                CapsuleErrorView,
            >(data@),
    {
        match gzip_compress(data) {
            Ok(stream) => Ok(stream),
            Err(error) => Err(CapsuleError::from(error)),
        }
    }

    /// Reads the data out of a gzip stream.
    pub fn decompress_stream(&self, stream: &[u8]) -> (unpacked: Result<Vec<u8>, CapsuleError>)
        ensures
            outcome(unpacked) == decompressed(stream@),
    {
        match gzip_decompress(stream) {
            Ok(data) => Ok(data),
            Err(error) => Err(CapsuleError::from(error)),
        }
    }
}

} // verus!
