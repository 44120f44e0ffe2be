use dig_capsule::capsule::CapsuleData;
use dig_capsule::digest::sha256_hex;
use dig_capsule::error::CapsuleError;
use dig_capsule::header::CapsuleHeader;
use dig_capsule::inspect::is_valid_capsule_file;
use dig_capsule::manifest::validate_consensus_parameters;
use dig_capsule::names::{capsule_file_name, metadata_file_name};
use dig_capsule::pipeline::{
    create_data_capsule, extract_data_capsule, extract_data_capsule_to_file, CreatedCapsules,
};
use dig_capsule::processor::StreamingCapsuleProcessor;
use dig_capsule::reconstruct::reconstruct_file_from_capsules;

const EMPTY_ID: &str = "e3b0c44298fc1c149afbf4c8996fb92427ae41e4649b934ca495991b7852b855";
const HELLO_ID: &str = "b94d27b9934d3e08a52e52d7da7dabfac484efe37a5380ee9088f7ace2efcde9";

fn passphrase(text: &str) -> Option<String> {
    Some(text.to_string())
}

fn files(made: &CreatedCapsules) -> Vec<Vec<u8>> {
    made.capsules.iter().map(|capsule| capsule.to_file_bytes()).collect()
}

/// Bytes from a fixed seed, each below 16: they compress to about half.
fn seeded_nibbles(count: usize, seed: u64) -> Vec<u8> {
    let mut state = seed;
    (0..count)
        .map(|_| {
            state = state.wrapping_mul(6364136223846793005).wrapping_add(1442695040888963407);
            ((state >> 33) & 0x0F) as u8
        })
        .collect()
}

/// Bytes from a fixed seed that do not compress.
fn seeded_bytes(count: usize, seed: u64) -> Vec<u8> {
    let mut state = seed;
    (0..count)
        .map(|_| {
            state = state.wrapping_mul(6364136223846793005).wrapping_add(1442695040888963407);
            (state >> 33) as u8
        })
        .collect()
}

fn check_capsule(capsule: &CapsuleData, index: u32, encrypted: bool) {
    let file = capsule.to_file_bytes();
    assert_eq!(file.len(), capsule.header.capsule_size as usize);
    assert_eq!(capsule.header.data_size as usize, capsule.data.len());
    assert_eq!(capsule.header.capsule_index, index);
    assert_eq!(capsule.header.is_encrypted(), encrypted);
    assert!(capsule.header.is_compressed());
    assert_eq!(capsule.hash, sha256_hex(&file));
    assert!(is_valid_capsule_file(&file[..44]));
    let decoded = CapsuleHeader::from_bytes(&file).unwrap();
    assert_eq!(decoded.header_checksum, decoded.calculate_checksum_without_field());
}

#[test]
fn empty_input_makes_one_smallest_capsule() {
    let made = create_data_capsule(b"", false, None).unwrap();
    assert_eq!(made.capsules.len(), 1);
    assert_eq!(made.capsules[0].to_file_bytes().len(), 262144);
    check_capsule(&made.capsules[0], 0, false);
    let set = &made.capsule_set;
    assert_eq!(set.id, EMPTY_ID);
    assert_eq!(set.metadata.checksum, EMPTY_ID);
    assert_eq!(set.metadata.original_size, 0);
    assert_eq!(set.metadata.capsule_count, 1);
    assert_eq!(set.metadata.capsule_sizes, vec![262144]);
    assert_eq!(set.capsules.len(), 1);
    assert_eq!(set.capsules[0].size, 262144);
    assert_eq!(extract_data_capsule(set, &files(&made), None).unwrap(), b"");
}

#[test]
fn empty_input_under_a_passphrase() {
    let made = create_data_capsule(b"", false, passphrase("pw")).unwrap();
    assert_eq!(made.capsules.len(), 1);
    check_capsule(&made.capsules[0], 0, true);
    assert_eq!(made.capsule_set.id, EMPTY_ID);
    assert_eq!(
        extract_data_capsule(&made.capsule_set, &files(&made), passphrase("pw")).unwrap(),
        b""
    );
}

#[test]
fn hello_world_without_a_passphrase() {
    let made = create_data_capsule(b"hello world", false, None).unwrap();
    assert_eq!(made.capsules.len(), 1);
    check_capsule(&made.capsules[0], 0, false);
    let set = &made.capsule_set;
    assert_eq!(set.id, HELLO_ID);
    assert_eq!(set.metadata.checksum, set.id);
    assert_eq!(set.metadata.original_size, 11);
    assert_eq!(set.metadata.capsule_count, 1);
    assert_eq!(set.metadata.capsule_sizes, vec![262144]);
    assert_eq!(set.metadata.chunking_algorithm, "DIG_DETERMINISTIC_V1");
    assert_eq!(set.metadata.consensus_version, "DIG_CAPSULE_V1");
    assert!(set.metadata.encryption_info.is_none());
    let compression = set.metadata.compression_info.as_ref().unwrap();
    assert_eq!(compression.algorithm, "gzip");
    assert_eq!(compression.level, 6);
    assert_eq!(compression.original_size, 11);
    assert_eq!(set.capsules[0].index, 0);
    assert_eq!(set.capsules[0].size, 262144);
    assert_eq!(set.capsules[0].hash, made.capsules[0].hash);
    assert!(!set.capsules[0].encrypted);
    assert!(set.capsules[0].compressed);
    assert_eq!(extract_data_capsule(set, &files(&made), None).unwrap(), b"hello world");
    assert!(validate_consensus_parameters(set.clone()).unwrap());
}

#[test]
fn hello_world_under_a_passphrase() {
    let plain = create_data_capsule(b"hello world", false, None).unwrap();
    let made = create_data_capsule(b"hello world", false, passphrase("pw")).unwrap();
    assert_eq!(made.capsules.len(), plain.capsules.len());
    check_capsule(&made.capsules[0], 0, true);
    assert_ne!(files(&made), files(&plain));
    let set = &made.capsule_set;
    assert_eq!(set.id, HELLO_ID);
    assert!(set.capsules[0].encrypted);
    let encryption = set.metadata.encryption_info.as_ref().unwrap();
    assert_eq!(encryption.algorithm, "AES-256-GCM");
    assert_eq!(encryption.key_derivation, "PBKDF2-HMAC-SHA256");
    assert_eq!(encryption.iterations, 100000);
    assert_eq!(encryption.salt, "DIG_CAPSULE_SALT_V1");
    assert_eq!(
        extract_data_capsule(set, &files(&made), passphrase("pw")).unwrap(),
        b"hello world"
    );
    assert!(matches!(
        extract_data_capsule(set, &files(&made), passphrase("wrong")),
        Err(CapsuleError::DecryptionFailed)
    ));
}

#[test]
fn extraction_without_the_passphrase_fails_on_the_checksum() {
    let made = create_data_capsule(b"hello world", false, passphrase("pw")).unwrap();
    assert!(matches!(
        extract_data_capsule(&made.capsule_set, &files(&made), None),
        Err(CapsuleError::ChecksumMismatch)
    ));
}

#[test]
fn making_capsules_twice_gives_the_same_bytes() {
    let input = seeded_nibbles(300_000, 11);
    for key in [None, passphrase("pw")] {
        let first = create_data_capsule(&input, false, key.clone()).unwrap();
        let second = create_data_capsule(&input, true, key.clone()).unwrap();
        assert_eq!(files(&first), files(&second));
        assert_eq!(first.capsule_set.id, second.capsule_set.id);
        assert_eq!(first.capsule_set.capsules.len(), second.capsule_set.capsules.len());
        for (one, other) in first.capsule_set.capsules.iter().zip(&second.capsule_set.capsules) {
            assert_eq!(one.index, other.index);
            assert_eq!(one.size, other.size);
            assert_eq!(one.hash, other.hash);
        }
    }
}

#[test]
fn two_chunks_of_compressible_bytes() {
    let input = seeded_nibbles(262145, 1);
    let made = create_data_capsule(&input, false, None).unwrap();
    assert_eq!(made.capsule_set.metadata.capsule_sizes, vec![262144, 262144]);
    assert_eq!(made.capsule_set.metadata.capsule_count, 2);
    assert_eq!(made.capsules.len(), 2);
    check_capsule(&made.capsules[0], 0, false);
    check_capsule(&made.capsules[1], 1, false);
    let on_disk: usize = files(&made).iter().map(|file| file.len()).sum();
    assert_eq!(on_disk, 524288);
    assert_eq!(made.capsule_set.id, sha256_hex(&input));
    assert_eq!(extract_data_capsule(&made.capsule_set, &files(&made), None).unwrap(), input);
}

#[test]
fn a_chunk_that_does_not_compress_takes_a_larger_capsule() {
    let input = seeded_bytes(262145, 1);
    let made = create_data_capsule(&input, false, None).unwrap();
    // the manifest keeps the plan; the first capsule is upgraded
    assert_eq!(made.capsule_set.metadata.capsule_sizes, vec![262144, 262144]);
    assert_eq!(made.capsules[0].header.capsule_size, 1048576);
    assert_eq!(made.capsule_set.capsules[0].size, 1048576);
    assert_eq!(made.capsules[1].header.capsule_size, 262144);
    check_capsule(&made.capsules[0], 0, false);
    check_capsule(&made.capsules[1], 1, false);
    assert_eq!(extract_data_capsule(&made.capsule_set, &files(&made), None).unwrap(), input);
    assert!(validate_consensus_parameters(made.capsule_set.clone()).unwrap());
}

#[test]
fn one_mebibyte_and_a_byte_under_a_passphrase() {
    let input = seeded_nibbles(1_048_577, 5);
    let made = create_data_capsule(&input, false, passphrase("k")).unwrap();
    assert_eq!(made.capsule_set.metadata.capsule_sizes, vec![1048576, 262144]);
    assert_eq!(made.capsules.len(), 2);
    check_capsule(&made.capsules[0], 0, true);
    check_capsule(&made.capsules[1], 1, true);
    // sealed bytes do not compress: the full chunk takes the next size
    assert_eq!(made.capsules[0].header.capsule_size, 10485760);
    assert_eq!(made.capsules[1].header.capsule_size, 262144);
    assert_eq!(
        extract_data_capsule(&made.capsule_set, &files(&made), passphrase("k")).unwrap(),
        input
    );
}

#[test]
fn one_mebibyte_and_a_byte_without_a_passphrase() {
    let input = seeded_nibbles(1_048_577, 5);
    let made = create_data_capsule(&input, false, None).unwrap();
    assert_eq!(made.capsule_set.metadata.capsule_sizes, vec![1048576, 262144]);
    let sizes: Vec<usize> = files(&made).iter().map(|file| file.len()).collect();
    assert_eq!(sizes, vec![1048576, 262144]);
    assert_eq!(extract_data_capsule(&made.capsule_set, &files(&made), None).unwrap(), input);
}

#[test]
fn a_flipped_header_byte_is_found() {
    let made = create_data_capsule(b"hello world", false, None).unwrap();
    for position in 0..44 {
        let mut damaged = files(&made);
        damaged[0][position] ^= 0x10;
        assert!(!is_valid_capsule_file(&damaged[0][..44]));
        let failed = extract_data_capsule(&made.capsule_set, &damaged, None);
        assert!(matches!(
            failed,
            Err(CapsuleError::ChecksumMismatch) | Err(CapsuleError::InvalidFormat)
        ));
    }
}

#[test]
fn a_damaged_payload_is_found() {
    let made = create_data_capsule(b"hello world", false, None).unwrap();
    let mut damaged = files(&made);
    damaged[0][44 + 12] ^= 1;
    assert!(extract_data_capsule(&made.capsule_set, &damaged, None).is_err());
}

#[test]
fn a_foreign_checksum_in_the_manifest_is_a_mismatch() {
    let made = create_data_capsule(b"hello world", false, None).unwrap();
    let mut set = made.capsule_set.clone();
    set.metadata.checksum = EMPTY_ID.to_string();
    assert!(matches!(
        extract_data_capsule(&set, &files(&made), None),
        Err(CapsuleError::ChecksumMismatch)
    ));
    let rebuilt = reconstruct_file_from_capsules(set, &files(&made), None);
    assert!(matches!(rebuilt.result, Err(CapsuleError::ChecksumMismatch)));
    assert_eq!(rebuilt.written, b"hello world");
}

#[test]
fn a_missing_or_short_file_is_an_io_error() {
    let made = create_data_capsule(&seeded_nibbles(262145, 3), false, None).unwrap();
    let mut present = files(&made);
    present.pop();
    assert!(matches!(
        extract_data_capsule(&made.capsule_set, &present, None),
        Err(CapsuleError::IoError)
    ));
    let mut short = files(&made);
    short[1].truncate(43);
    assert!(matches!(
        extract_data_capsule(&made.capsule_set, &short, None),
        Err(CapsuleError::IoError)
    ));
    assert!(matches!(
        reconstruct_file_from_capsules(made.capsule_set.clone(), &present, None).result,
        Err(CapsuleError::IoError)
    ));
}

#[test]
fn the_first_failing_file_gives_the_error() {
    let made = create_data_capsule(&seeded_nibbles(262145, 3), false, None).unwrap();
    let mut damaged = files(&made);
    damaged[0][0] = b'X';
    damaged[1].truncate(10);
    assert!(matches!(
        extract_data_capsule(&made.capsule_set, &damaged, None),
        Err(CapsuleError::InvalidFormat)
    ));
}

#[test]
fn extraction_reads_as_many_files_as_the_manifest_counts() {
    let made = create_data_capsule(&seeded_nibbles(262145, 3), false, None).unwrap();
    let mut set = made.capsule_set.clone();
    set.metadata.capsule_count = 1;
    // one chunk alone does not have the checksum of the input
    assert!(matches!(
        extract_data_capsule(&set, &files(&made), None),
        Err(CapsuleError::ChecksumMismatch)
    ));
    set.metadata.capsule_count = 0;
    set.metadata.checksum = EMPTY_ID.to_string();
    assert_eq!(extract_data_capsule(&set, &files(&made), None).unwrap(), b"");
}

#[test]
fn reconstruction_reads_by_index() {
    let input = seeded_nibbles(1_048_576 + 262_144 + 10, 9);
    let made = create_data_capsule(&input, false, passphrase("pw")).unwrap();
    assert_eq!(made.capsules.len(), 3);
    let rebuilt =
        reconstruct_file_from_capsules(made.capsule_set.clone(), &files(&made), passphrase("pw"));
    assert!(rebuilt.result.is_ok());
    assert_eq!(rebuilt.written, input);
    // the manifest lists the capsules out of order; each file stands where
    // its capsule stands in the list
    let mut set = made.capsule_set.clone();
    let mut shuffled = files(&made);
    set.capsules.swap(0, 2);
    shuffled.swap(0, 2);
    let rebuilt = reconstruct_file_from_capsules(set, &shuffled, passphrase("pw"));
    assert!(rebuilt.result.is_ok());
    assert_eq!(rebuilt.written, input);
}

#[test]
fn one_capsule_by_hand() {
    let processor = StreamingCapsuleProcessor::new(None).unwrap();
    let capsule = processor.build_capsule(b"hello world", 4, 1048576).unwrap();
    check_capsule(&capsule, 4, false);
    assert_eq!(capsule.header.capsule_size, 1048576);
    assert_eq!(capsule.data.len(), 1048576 - 44);
    assert_eq!(processor.open_capsule(&capsule.to_file_bytes()).unwrap(), b"hello world");
    // the payload begins with the gzip stream of the chunk
    let stream = processor.compress_stream(b"hello world").unwrap();
    assert_eq!(&capsule.data[..stream.len()], &stream[..]);
    assert_eq!(&capsule.data[stream.len()..stream.len() + 4], &[0xFF; 4]);
    assert_eq!(processor.remove_padding(&capsule.data), stream);
}

#[test]
fn capsules_of_a_plan_given_by_hand() {
    let processor = StreamingCapsuleProcessor::new(None).unwrap();
    let input = seeded_nibbles(300_000, 2);
    let plan = dig_capsule::ladder::determine_chunk_sizes(300_000);
    let capsules = processor.build_capsules(&input, &plan).unwrap();
    assert_eq!(capsules.len(), 2);
    assert_eq!(processor.open_capsule(&capsules[0].to_file_bytes()).unwrap(), &input[..262144]);
    assert_eq!(processor.open_capsule(&capsules[1].to_file_bytes()).unwrap(), &input[262144..]);
}

#[test]
fn opening_a_file_shorter_than_a_header_is_an_io_error() {
    let processor = StreamingCapsuleProcessor::new(None).unwrap();
    assert!(matches!(processor.open_capsule(&[0u8; 43]), Err(CapsuleError::IoError)));
}

#[test]
fn files_of_a_set_are_named_by_its_identifier() {
    let made = create_data_capsule(b"hello world", false, None).unwrap();
    let id = &made.capsule_set.id;
    assert_eq!(id.len(), 64);
    assert!(id.is_ascii());
    assert_eq!(capsule_file_name(id, 0), "b94d27b9934d3e08_000.capsule");
    assert_eq!(metadata_file_name(id), "b94d27b9934d3e08_metadata.json");
}

#[test]
fn reconstruction_and_extraction_agree_on_a_set_as_made() {
    let input = seeded_nibbles(600_000, 21);
    let made = create_data_capsule(&input, false, passphrase("pw")).unwrap();
    let extracted =
        extract_data_capsule(&made.capsule_set, &files(&made), passphrase("pw")).unwrap();
    let rebuilt =
        reconstruct_file_from_capsules(made.capsule_set.clone(), &files(&made), passphrase("pw"));
    assert_eq!(extracted, input);
    assert!(rebuilt.result.is_ok());
    assert_eq!(rebuilt.written, input);
}

#[test]
fn what_was_written_before_a_failure_stays_written() {
    let input = seeded_nibbles(1_048_576 + 262_144 + 10, 9);
    let made = create_data_capsule(&input, false, None).unwrap();
    assert_eq!(made.capsules.len(), 3);

    let whole = extract_data_capsule_to_file(&made.capsule_set, &files(&made), None);
    assert!(whole.result.is_ok());
    assert_eq!(whole.written, input);

    // the second file is damaged: the first chunk is written, no more
    let mut damaged = files(&made);
    damaged[1][3] ^= 1;
    let output = extract_data_capsule_to_file(&made.capsule_set, &damaged, None);
    assert!(matches!(output.result, Err(CapsuleError::InvalidFormat)));
    assert_eq!(output.written, &input[..1_048_576]);
    let rebuilt = reconstruct_file_from_capsules(made.capsule_set.clone(), &damaged, None);
    assert!(matches!(rebuilt.result, Err(CapsuleError::InvalidFormat)));
    assert_eq!(rebuilt.written, &input[..1_048_576]);

    // the last file is missing: the chunks before it are written
    let mut present = files(&made);
    present.pop();
    let output = extract_data_capsule_to_file(&made.capsule_set, &present, None);
    assert!(matches!(output.result, Err(CapsuleError::IoError)));
    assert_eq!(output.written, &input[..1_048_576 + 262_144]);

    // the first file fails: nothing is written
    let mut damaged = files(&made);
    damaged[0].truncate(20);
    let output = extract_data_capsule_to_file(&made.capsule_set, &damaged, None);
    assert!(matches!(output.result, Err(CapsuleError::IoError)));
    assert!(output.written.is_empty());
}

#[test]
fn a_checksum_mismatch_leaves_everything_written() {
    let made = create_data_capsule(b"hello world", false, None).unwrap();
    let mut set = made.capsule_set.clone();
    set.metadata.checksum = EMPTY_ID.to_string();
    let output = extract_data_capsule_to_file(&set, &files(&made), None);
    assert!(matches!(output.result, Err(CapsuleError::ChecksumMismatch)));
    assert_eq!(output.written, b"hello world");
}

#[test]
fn padding_leaves_a_stream_as_long_as_its_target_as_it_is() {
    let processor = StreamingCapsuleProcessor::new(None).unwrap();
    let stream = processor.compress_stream(b"hello world").unwrap();
    let mut data = stream.clone();
    processor.add_deterministic_padding(&mut data, stream.len(), 0).unwrap();
    assert_eq!(data, stream);
}
