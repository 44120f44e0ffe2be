use dig_capsule::wire::{bytes_equal, u32_from_le_bytes, u32_to_be_bytes, u32_to_le_bytes};

#[test]
fn numbers_are_written_lowest_byte_first() {
    assert_eq!(u32_to_le_bytes(0x01020304), [4, 3, 2, 1]);
    assert_eq!(u32_to_le_bytes(0), [0, 0, 0, 0]);
    assert_eq!(u32_to_le_bytes(44), [44, 0, 0, 0]);
    assert_eq!(u32_to_le_bytes(u32::MAX), [255, 255, 255, 255]);
    assert_eq!(u32_to_le_bytes(262144), 262144u32.to_le_bytes());
}

#[test]
fn numbers_are_written_highest_byte_first() {
    assert_eq!(u32_to_be_bytes(0x01020304), [1, 2, 3, 4]);
    assert_eq!(u32_to_be_bytes(7), [0, 0, 0, 7]);
    assert_eq!(u32_to_be_bytes(u32::MAX), [255, 255, 255, 255]);
    assert_eq!(u32_to_be_bytes(1048576000), 1048576000u32.to_be_bytes());
}

#[test]
fn numbers_are_read_where_they_stand() {
    let bytes = [9, 4, 3, 2, 1, 9, 255, 255, 255, 255];
    assert_eq!(u32_from_le_bytes(&bytes, 1), 0x01020304);
    assert_eq!(u32_from_le_bytes(&bytes, 6), u32::MAX);
    assert_eq!(u32_from_le_bytes(&bytes, 0), 0x02030409);
    for value in [0u32, 1, 255, 256, 65535, 65536, 16777216, 3_000_000_000] {
        assert_eq!(u32_from_le_bytes(&u32_to_le_bytes(value), 0), value);
    }
}

#[test]
fn byte_comparison() {
    assert!(bytes_equal(b"abc", b"abc"));
    assert!(bytes_equal(b"", b""));
    assert!(!bytes_equal(b"abc", b"abd"));
    assert!(!bytes_equal(b"abc", b"ab"));
    assert!(!bytes_equal(b"", b"a"));
}
