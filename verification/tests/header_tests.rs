use dig_capsule::error::CapsuleError;
use dig_capsule::header::{CapsuleHeader, CAPSULE_HEADER_SIZE, CAPSULE_MAGIC};
use dig_capsule::inspect::{
    get_capsule_file_info, is_valid_capsule_file, total_minimum_padding,
    validate_capsule_file_internal,
};

fn sample_bytes() -> Vec<u8> {
    hex::decode(
        "4449474341503031010000000300000000000400d4ff030003000000000000000000000055f1e6522c000000",
    )
    .unwrap()
}

#[test]
fn new_header_has_the_fixed_fields_and_its_checksum() {
    let header = CapsuleHeader::new(3, 262144, 262100, true, true);
    assert_eq!(header.magic, *b"DIGCAP01");
    assert_eq!(header.magic, CAPSULE_MAGIC);
    assert_eq!(header.version, 1);
    assert_eq!(header.capsule_index, 3);
    assert_eq!(header.capsule_size, 262144);
    assert_eq!(header.data_size, 262100);
    assert_eq!(header.flags, 3);
    assert_eq!(header.reserved, [0u8; 8]);
    assert_eq!(header.header_checksum, 0x52e6f155);
    assert_eq!(header.data_offset, 44);
    assert_eq!(header.calculate_checksum_without_field(), 0x52e6f155);
}

#[test]
fn header_flags() {
    let plain = CapsuleHeader::new(0, 262144, 1, false, false);
    assert_eq!(plain.flags, 0);
    assert!(!plain.is_encrypted());
    assert!(!plain.is_compressed());
    let compressed = CapsuleHeader::new(0, 262144, 1, false, true);
    assert_eq!(compressed.flags, 2);
    assert!(!compressed.is_encrypted());
    assert!(compressed.is_compressed());
    let encrypted = CapsuleHeader::new(0, 262144, 1, true, false);
    assert_eq!(encrypted.flags, 1);
    assert!(encrypted.is_encrypted());
    assert!(!encrypted.is_compressed());
}

#[test]
fn header_encodes_to_the_byte_table() {
    let header = CapsuleHeader::new(3, 262144, 262100, true, true);
    assert_eq!(header.to_bytes(), sample_bytes());
    let other = CapsuleHeader::new(0, 1048576, 1048532, false, true);
    assert_eq!(
        hex::encode(other.to_bytes()),
        "4449474341503031010000000000000000001000d4ff0f00020000000000000000000000a8c7ff172c000000"
    );
    assert_eq!(other.to_bytes().len(), CAPSULE_HEADER_SIZE);
}

#[test]
fn header_decodes_what_it_encoded() {
    for (index, size, encrypted) in [
        (0u32, 262144u32, false),
        (1, 1048576, true),
        (4_000_000_000, 10485760, false),
        (77, 104857600, true),
        (u32::MAX, 1048576000, true),
    ] {
        let header = CapsuleHeader::new(index, size, size - 44, encrypted, true);
        let mut bytes = header.to_bytes();
        let decoded = CapsuleHeader::from_bytes(&bytes).unwrap();
        assert_eq!(decoded.to_bytes(), bytes);
        assert_eq!(decoded.capsule_index, index);
        assert_eq!(decoded.capsule_size, size);
        assert_eq!(decoded.data_size, size - 44);
        assert_eq!(decoded.is_encrypted(), encrypted);
        assert!(decoded.is_compressed());
        assert_eq!(decoded.header_checksum, header.header_checksum);
        // what follows the header is not read
        bytes.extend_from_slice(&[1, 2, 3]);
        assert_eq!(CapsuleHeader::from_bytes(&bytes).unwrap().to_bytes(), header.to_bytes());
    }
}

#[test]
fn short_header_is_invalid_format() {
    let bytes = sample_bytes();
    assert!(matches!(
        CapsuleHeader::from_bytes(&bytes[..43]),
        Err(CapsuleError::InvalidFormat)
    ));
    assert!(matches!(CapsuleHeader::from_bytes(&[]), Err(CapsuleError::InvalidFormat)));
}

#[test]
fn wrong_magic_is_invalid_format() {
    let mut bytes = sample_bytes();
    bytes[7] = b'2';
    assert!(matches!(CapsuleHeader::from_bytes(&bytes), Err(CapsuleError::InvalidFormat)));
}

#[test]
fn every_flipped_bit_outside_the_magic_is_a_checksum_mismatch() {
    let bytes = sample_bytes();
    for position in 8..44 {
        for bit in 0..8 {
            let mut damaged = bytes.clone();
            damaged[position] ^= 1 << bit;
            assert!(
                matches!(
                    CapsuleHeader::from_bytes(&damaged),
                    Err(CapsuleError::ChecksumMismatch)
                ),
                "byte {} bit {}",
                position,
                bit
            );
            assert!(!is_valid_capsule_file(&damaged));
        }
    }
}

#[test]
fn every_flipped_bit_of_the_magic_is_invalid_format() {
    let bytes = sample_bytes();
    for position in 0..8 {
        for bit in 0..8 {
            let mut damaged = bytes.clone();
            damaged[position] ^= 1 << bit;
            assert!(matches!(
                CapsuleHeader::from_bytes(&damaged),
                Err(CapsuleError::InvalidFormat)
            ));
        }
    }
}

fn sealed(mut header: CapsuleHeader) -> Vec<u8> {
    header.header_checksum = header.calculate_checksum_without_field();
    header.to_bytes()
}

#[test]
fn foreign_version_is_invalid_format() {
    let mut header = CapsuleHeader::new(0, 262144, 100, false, true);
    header.version = 2;
    assert!(matches!(
        CapsuleHeader::from_bytes(&sealed(header)),
        Err(CapsuleError::InvalidFormat)
    ));
}

#[test]
fn size_off_the_ladder_is_invalid_format() {
    let header = CapsuleHeader::new(0, 262145, 100, false, true);
    assert!(matches!(
        CapsuleHeader::from_bytes(&header.to_bytes()),
        Err(CapsuleError::InvalidFormat)
    ));
}

#[test]
fn foreign_data_offset_is_invalid_format() {
    let mut header = CapsuleHeader::new(0, 262144, 100, false, true);
    header.data_offset = 48;
    assert!(matches!(
        CapsuleHeader::from_bytes(&sealed(header)),
        Err(CapsuleError::InvalidFormat)
    ));
}

#[test]
fn checksum_is_looked_at_before_the_version() {
    let mut header = CapsuleHeader::new(0, 262144, 100, false, true);
    header.version = 2;
    assert!(matches!(
        CapsuleHeader::from_bytes(&header.to_bytes()),
        Err(CapsuleError::ChecksumMismatch)
    ));
}

#[test]
fn valid_capsule_file_start() {
    assert!(is_valid_capsule_file(&sample_bytes()));
    assert!(!is_valid_capsule_file(&sample_bytes()[..20]));
    assert!(!is_valid_capsule_file(&[0u8; 44]));
    let header = validate_capsule_file_internal(&sample_bytes()).unwrap();
    assert_eq!(header.capsule_index, 3);
    assert!(matches!(
        validate_capsule_file_internal(&[0u8; 44]),
        Err(CapsuleError::InvalidFormat)
    ));
}

#[test]
fn capsule_file_info_shows_the_header() {
    let info = get_capsule_file_info(&sample_bytes()).unwrap();
    assert_eq!(info.magic, "4449474341503031");
    assert_eq!(info.version, 1);
    assert_eq!(info.capsule_index, 3);
    assert_eq!(info.capsule_size, 262144);
    assert_eq!(info.data_size, 262100);
    assert!(info.is_encrypted);
    assert!(info.is_compressed);
    assert_eq!(info.checksum, "52e6f155");
    let other = CapsuleHeader::new(0, 1048576, 1048532, false, true);
    let info = get_capsule_file_info(&other.to_bytes()).unwrap();
    assert_eq!(info.checksum, "17ffc7a8");
    assert_eq!(info.checksum, format!("{:08x}", other.header_checksum));
    assert!(!info.is_encrypted);
}

#[test]
fn capsule_file_info_of_a_damaged_header_is_none() {
    let mut bytes = sample_bytes();
    bytes[12] ^= 1;
    assert!(get_capsule_file_info(&bytes).is_none());
    assert!(get_capsule_file_info(&bytes[..10]).is_none());
}

#[test]
fn minimum_padding_adds_up() {
    assert_eq!(total_minimum_padding(0), 0);
    assert_eq!(total_minimum_padding(1), 13107);
    assert_eq!(total_minimum_padding(4), 52428);
    assert_eq!(total_minimum_padding(u32::MAX), 13107 * 4294967295i64);
}
