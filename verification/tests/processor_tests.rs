use dig_capsule::digest::{sha256_digest, sha256_hex};
use dig_capsule::error::CapsuleError;
use dig_capsule::processor::StreamingCapsuleProcessor;
use flate2::read::GzDecoder;
use std::io::Read;

fn plain() -> StreamingCapsuleProcessor {
    StreamingCapsuleProcessor::new(None).unwrap()
}

fn keyed(passphrase: &str) -> StreamingCapsuleProcessor {
    StreamingCapsuleProcessor::new(Some(passphrase.to_string())).unwrap()
}

#[test]
fn sha256_of_known_inputs() {
    assert_eq!(
        sha256_hex(b""),
        "e3b0c44298fc1c149afbf4c8996fb92427ae41e4649b934ca495991b7852b855"
    );
    assert_eq!(
        sha256_hex(b"abc"),
        "ba7816bf8f01cfea414140de5dae2223b00361a396177a9cb410ff61f20015ad"
    );
    assert_eq!(
        hex::encode(sha256_digest(b"hello world")),
        "b94d27b9934d3e08a52e52d7da7dabfac484efe37a5380ee9088f7ace2efcde9"
    );
}

#[test]
fn key_is_the_digest_of_passphrase_and_salt() {
    let key = StreamingCapsuleProcessor::derive_consensus_key("pw").unwrap();
    assert_eq!(
        hex::encode(key),
        "46ad773742f9bbd3e22c0fb728d158e88f150b162cee2ba7180821ae37e3801e"
    );
    assert_eq!(keyed("pw").encryption_key, Some(key));
    assert_eq!(plain().encryption_key, None);
    assert_eq!(key, sha256_digest(b"pwDIG_CAPSULE_SALT_V1"));
}

#[test]
fn nonce_holds_the_index_and_the_label() {
    assert_eq!(
        StreamingCapsuleProcessor::chunk_nonce(0),
        [0, 0, 0, 0, b'D', b'I', b'G', b'1', 0, 0, 0, 0]
    );
    assert_eq!(
        StreamingCapsuleProcessor::chunk_nonce(0x01020304),
        [1, 2, 3, 4, b'D', b'I', b'G', b'1', 0, 0, 0, 0]
    );
}

#[test]
fn encryption_without_a_key_copies() {
    let processor = plain();
    assert_eq!(processor.encrypt_stream(b"hello world", 5).unwrap(), b"hello world");
    assert_eq!(processor.decrypt_stream(b"hello world", 5).unwrap(), b"hello world");
    assert_eq!(processor.encrypt_stream(b"", 0).unwrap(), b"");
}

#[test]
fn encryption_puts_the_nonce_first_and_adds_the_tag() {
    let processor = keyed("pw");
    let sealed = processor.encrypt_stream(b"hello world", 7).unwrap();
    assert_eq!(sealed.len(), 12 + 11 + 16);
    assert_eq!(&sealed[..12], &StreamingCapsuleProcessor::chunk_nonce(7));
    assert_ne!(&sealed[12..23], b"hello world");
    assert_eq!(processor.decrypt_stream(&sealed, 7).unwrap(), b"hello world");
    // the same chunk under the same key and index seals to the same bytes
    assert_eq!(processor.encrypt_stream(b"hello world", 7).unwrap(), sealed);
    let empty = processor.encrypt_stream(b"", 0).unwrap();
    assert_eq!(empty.len(), 28);
    assert_eq!(processor.decrypt_stream(&empty, 0).unwrap(), b"");
}

#[test]
fn sealed_bytes_depend_on_index_and_key() {
    let sealed = keyed("pw").encrypt_stream(b"hello world", 7).unwrap();
    assert_ne!(keyed("pw").encrypt_stream(b"hello world", 8).unwrap()[12..], sealed[12..]);
    assert_ne!(keyed("pq").encrypt_stream(b"hello world", 7).unwrap()[12..], sealed[12..]);
}

#[test]
fn decryption_fails_under_another_key_index_or_after_damage() {
    let sealed = keyed("pw").encrypt_stream(b"hello world", 7).unwrap();
    assert!(matches!(
        keyed("wrong").decrypt_stream(&sealed, 7),
        Err(CapsuleError::DecryptionFailed)
    ));
    assert!(matches!(
        keyed("pw").decrypt_stream(&sealed, 8),
        Err(CapsuleError::DecryptionFailed)
    ));
    let mut damaged = sealed.clone();
    damaged[20] ^= 1;
    assert!(matches!(
        keyed("pw").decrypt_stream(&damaged, 7),
        Err(CapsuleError::DecryptionFailed)
    ));
    // twelve bytes of nonce and nothing sealed behind them
    assert!(matches!(
        keyed("pw").decrypt_stream(&sealed[..12], 7),
        Err(CapsuleError::DecryptionFailed)
    ));
}

#[test]
fn decryption_reads_the_index_not_the_stored_nonce() {
    let mut sealed = keyed("pw").encrypt_stream(b"hello world", 7).unwrap();
    for byte in sealed[..12].iter_mut() {
        *byte = 0xAA;
    }
    assert_eq!(keyed("pw").decrypt_stream(&sealed, 7).unwrap(), b"hello world");
}

#[test]
fn decryption_of_less_than_a_nonce_is_an_io_error() {
    assert!(matches!(
        keyed("pw").decrypt_stream(&[0u8; 11], 0),
        Err(CapsuleError::IoError)
    ));
}

#[test]
fn compression_makes_a_gzip_stream() {
    let processor = plain();
    let data = vec![7u8; 10_000];
    let stream = processor.compress_stream(&data).unwrap();
    assert!(stream.len() >= 18);
    assert!(stream.len() < 200);
    assert_eq!(&stream[..4], &[0x1f, 0x8b, 8, 0]);
    // modification time zero
    assert_eq!(&stream[4..8], &[0, 0, 0, 0]);
    // the trailer ends with the length of the data
    assert_eq!(&stream[stream.len() - 4..], &10_000u32.to_le_bytes());
    let mut unpacked = Vec::new();
    GzDecoder::new(&stream[..]).read_to_end(&mut unpacked).unwrap();
    assert_eq!(unpacked, data);
    assert_eq!(processor.decompress_stream(&stream).unwrap(), data);
    assert_eq!(processor.compress_stream(&data).unwrap(), stream);
}

#[test]
fn compression_of_nothing() {
    let processor = plain();
    let stream = processor.compress_stream(b"").unwrap();
    assert!(stream.len() >= 18);
    assert_eq!(processor.decompress_stream(&stream).unwrap(), b"");
}

#[test]
fn decompression_of_a_damaged_stream_is_an_io_error() {
    let processor = plain();
    assert!(matches!(processor.decompress_stream(b"not gzip"), Err(CapsuleError::IoError)));
    assert!(matches!(processor.decompress_stream(b""), Err(CapsuleError::IoError)));
    let stream = processor.compress_stream(b"hello world hello world").unwrap();
    assert!(matches!(
        processor.decompress_stream(&stream[..stream.len() - 1]),
        Err(CapsuleError::IoError)
    ));
    let mut damaged = stream.clone();
    let last = damaged.len() - 6;
    damaged[last] ^= 0x40;
    assert!(matches!(processor.decompress_stream(&damaged), Err(CapsuleError::IoError)));
}

#[test]
fn decompression_passes_over_what_follows_the_stream() {
    let processor = plain();
    let mut stream = processor.compress_stream(b"hello world").unwrap();
    stream.extend_from_slice(&[0xFF; 40]);
    assert_eq!(processor.decompress_stream(&stream).unwrap(), b"hello world");
}
