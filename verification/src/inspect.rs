use crate::digest::{hex_encode, hex_lower};
use crate::error::{CapsuleError, CapsuleErrorView};
use crate::header::{decoded_header, CapsuleHeader, HeaderView};
use crate::manifest::{CapsuleFileInfo, CapsuleFileInfoView};
use crate::wire::{u32_be, u32_to_be_bytes};
use vstd::prelude::*;

verus! {

/// The filler that every capsule is planned with at the least: a twentieth of
/// the smallest capsule size, rounded down.
pub const MIN_PADDING_PER_CAPSULE: i64 = 13107;

/// What is shown of a header: the magic in hexadecimal, the numbers, the two
/// flags, and the checksum as eight hexadecimal digits.
pub open spec fn file_info(header: HeaderView) -> CapsuleFileInfoView {
    CapsuleFileInfoView {
        magic: hex_lower(header.magic),
        version: header.version,
        capsule_index: header.capsule_index,
        capsule_size: header.capsule_size,
        data_size: header.data_size,
        is_encrypted: header.flags & 1 != 0,
        is_compressed: header.flags & 2 != 0,
        checksum: hex_lower(u32_be(header.header_checksum)),
    }
}

/// Checks the start of a capsule file, of which the caller has read up to 44
/// bytes: they must be 44 and decode to a valid header.
pub fn validate_capsule_file_internal(file_start: &[u8]) -> (checked: Result<
    CapsuleHeader,
    CapsuleError,
>)
    ensures
        match checked {
            Ok(header) => decoded_header(file_start@) == Ok::<HeaderView, CapsuleErrorView>(
                header@,
            ),
            Err(error) => decoded_header(file_start@) == Err::<HeaderView, CapsuleErrorView>(
                error@,
            ),
        },
{
    CapsuleHeader::from_bytes(file_start)
}

/// Whether a file that starts with these bytes is a capsule file: its first
/// 44 bytes parse, the checksum holds, the version is the current one, the
/// size is on the ladder and the data follows the header.
pub fn is_valid_capsule_file(file_start: &[u8]) -> (valid: bool)
    ensures
        valid == decoded_header(file_start@) is Ok,
{
    match validate_capsule_file_internal(file_start) {
        Ok(_) => true,
        Err(_) => false,
    }
}

/// What the header of a capsule file says, or `None` for a file that is no
/// capsule file.
pub fn get_capsule_file_info(file_start: &[u8]) -> (info: Option<CapsuleFileInfo>)
    ensures
        match info {
            Some(shown) => decoded_header(file_start@) matches Ok(header) && shown@ == file_info(
                header,
            ),
            None => decoded_header(file_start@) is Err,
        },
{
    match validate_capsule_file_internal(file_start) {
        Ok(header) => Some(
            CapsuleFileInfo {
                magic: hex_encode(&header.magic),
                version: header.version,
                capsule_index: header.capsule_index,
                capsule_size: header.capsule_size,
                data_size: header.data_size,
                is_encrypted: header.is_encrypted(),
                is_compressed: header.is_compressed(),
                checksum: hex_encode(&u32_to_be_bytes(header.header_checksum)),
            },
        ),
        Err(_) => None,
    }
}

/// The least filler that `capsule_count` capsules hold together, in bytes:
/// the numerator of the storage overhead.
pub fn total_minimum_padding(capsule_count: u32) -> (total: i64)
    ensures
        total == 13107 * capsule_count,
{
    MIN_PADDING_PER_CAPSULE * (capsule_count as i64)
}

} // verus!
