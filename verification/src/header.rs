use crate::digest::{crc32, crc32_of};
use crate::error::{CapsuleError, CapsuleErrorView};
use crate::ladder::{is_capsule_size, is_ladder_size};
use crate::wire::{
    bytes_equal, lemma_u32_le_of_read, lemma_u32_le_round_trip, u32_from_le, u32_from_le_bytes,
    u32_le, u32_to_le_bytes,
};
use vstd::prelude::*;

verus! {

/// The eight bytes that open every capsule file: ASCII `DIGCAP01`.
pub const CAPSULE_MAGIC: [u8; 8] = [0x44, 0x49, 0x47, 0x43, 0x41, 0x50, 0x30, 0x31];

/// The length of a capsule header in bytes.
pub const CAPSULE_HEADER_SIZE: usize = 44;

/// The one version of the format.
pub const CAPSULE_VERSION: u32 = 1;

/// The flag bit of a capsule whose chunk was encrypted.
pub const FLAG_ENCRYPTED: u32 = 1;

/// The flag bit of a capsule whose chunk was compressed.
pub const FLAG_COMPRESSED: u32 = 2;

/// The header of a capsule file.
#[derive(Debug, Clone, Copy)]
pub struct CapsuleHeader {
    pub magic: [u8; 8],
    pub version: u32,
    pub capsule_index: u32,
    pub capsule_size: u32,
    pub data_size: u32,
    pub flags: u32,
    pub reserved: [u8; 8],
    pub header_checksum: u32,
    pub data_offset: u32,
}

/// The mathematical value of a header: its fields, the two arrays as
/// sequences of eight bytes.
pub struct HeaderView {
    pub magic: Seq<u8>,
    pub version: u32,
    pub capsule_index: u32,
    pub capsule_size: u32,
    pub data_size: u32,
    pub flags: u32,
    pub reserved: Seq<u8>,
    pub header_checksum: u32,
    pub data_offset: u32,
}

impl View for CapsuleHeader {
    type V = HeaderView;

    open spec fn view(&self) -> HeaderView {
        HeaderView {
            magic: self.magic@,
            version: self.version,
            capsule_index: self.capsule_index,
            capsule_size: self.capsule_size,
            data_size: self.data_size,
            flags: self.flags,
            reserved: self.reserved@,
            header_checksum: self.header_checksum,
            data_offset: self.data_offset,
        }
    }
}

/// The flags of a capsule: bit 0 for encrypted, bit 1 for compressed.
pub open spec fn flags_for(encrypted: bool, compressed: bool) -> u32 {
    if encrypted && compressed {
        3
    } else if compressed {
        2
    } else if encrypted {
        1
    } else {
        0
    }
}

impl HeaderView {
    /// The forty bytes that the checksum covers: every field but the checksum,
    /// in the order of the file.
    pub open spec fn checksummed_bytes(self) -> Seq<u8> {
        self.magic + u32_le(self.version) + u32_le(self.capsule_index) + u32_le(self.capsule_size)
            + u32_le(self.data_size) + u32_le(self.flags) + self.reserved + u32_le(
            self.data_offset,
        )
    }

    /// The header as it stands in a file: 44 bytes, the numbers lowest byte
    /// first, the checksum before the data offset.
    pub open spec fn encoding(self) -> Seq<u8> {
        self.magic + u32_le(self.version) + u32_le(self.capsule_index) + u32_le(self.capsule_size)
            + u32_le(self.data_size) + u32_le(self.flags) + self.reserved + u32_le(
            self.header_checksum,
        ) + u32_le(self.data_offset)
    }

    /// The two arrays have their eight bytes.
    pub open spec fn well_shaped(self) -> bool {
        self.magic.len() == 8 && self.reserved.len() == 8
    }

    /// The header is one that a capsule file may carry: the magic, a checksum
    /// that matches the other fields, the version, a size of the ladder and
    /// the data offset.
    pub open spec fn is_valid(self) -> bool {
        &&& self.well_shaped()
        &&& self.magic == CAPSULE_MAGIC@
        &&& self.header_checksum == crc32(self.checksummed_bytes())
        &&& self.version == 1
        &&& is_capsule_size(self.capsule_size as int)
        &&& self.data_offset == 44
    }
}

/// The header that `CapsuleHeader::new` makes.
pub open spec fn header_for(
    capsule_index: u32,
    capsule_size: u32,
    data_size: u32,
    encrypted: bool,
    compressed: bool,
) -> HeaderView {
    let unsealed = HeaderView {
        magic: CAPSULE_MAGIC@,
        version: 1,
        capsule_index,
        capsule_size,
        data_size,
        flags: flags_for(encrypted, compressed),
        reserved: Seq::new(8, |i: int| 0u8),
        header_checksum: 0,
        data_offset: 44,
    };
    HeaderView { header_checksum: crc32(unsealed.checksummed_bytes()), ..unsealed }
}

/// The fields that the first 44 bytes of `bytes` hold.
pub open spec fn parsed_header(bytes: Seq<u8>) -> HeaderView
    recommends
        bytes.len() >= 44,
{
    HeaderView {
        magic: bytes.subrange(0, 8),
        version: u32_from_le(bytes, 8),
        capsule_index: u32_from_le(bytes, 12),
        capsule_size: u32_from_le(bytes, 16),
        data_size: u32_from_le(bytes, 20),
        flags: u32_from_le(bytes, 24),
        reserved: bytes.subrange(28, 36),
        header_checksum: u32_from_le(bytes, 36),
        data_offset: u32_from_le(bytes, 40),
    }
}

/// What decoding `bytes` gives. The checks are made in this order: the length,
/// the magic, the checksum, the version, the size, the data offset. A wrong
/// checksum is a `ChecksumMismatch`, every other fault an `InvalidFormat`.
pub open spec fn decoded_header(bytes: Seq<u8>) -> Result<HeaderView, CapsuleErrorView> {
    let header = parsed_header(bytes);
    if bytes.len() < 44 {
        Err(CapsuleErrorView::InvalidFormat)
    } else if header.magic != CAPSULE_MAGIC@ {
        Err(CapsuleErrorView::InvalidFormat)
    } else if header.header_checksum != crc32(header.checksummed_bytes()) {
        Err(CapsuleErrorView::ChecksumMismatch)
    } else if header.version != 1 {
        Err(CapsuleErrorView::InvalidFormat)
    } else if !is_capsule_size(header.capsule_size as int) {
        Err(CapsuleErrorView::InvalidFormat)
    } else if header.data_offset != 44 {
        Err(CapsuleErrorView::InvalidFormat)
    } else {
        Ok(header)
    }
}

/// Copies eight bytes of `bytes`, from `offset` on, into an array.
fn read_eight(bytes: &[u8], offset: usize) -> (field: [u8; 8])
    requires
        offset + 8 <= bytes@.len(),
    ensures
        field@ == bytes@.subrange(offset as int, offset + 8),
{
    let field = [
        bytes[offset],
        bytes[offset + 1],
        bytes[offset + 2],
        bytes[offset + 3],
        bytes[offset + 4],
        bytes[offset + 5],
        bytes[offset + 6],
        bytes[offset + 7],
    ];
    assert(field@ =~= bytes@.subrange(offset as int, offset + 8));
    field
}

impl CapsuleHeader {
    /// The header of capsule `capsule_index`, sealed with its checksum.
    pub fn new(
        capsule_index: u32,
        capsule_size: u32,
        data_size: u32,
        encrypted: bool,
        compressed: bool,
    ) -> (header: CapsuleHeader)
        ensures
            header@ == header_for(capsule_index, capsule_size, data_size, encrypted, compressed),
    {
        let mut flags = 0u32;
        if encrypted {
            flags = flags | FLAG_ENCRYPTED;
        }
        if compressed {
            flags = flags | FLAG_COMPRESSED;
        }
        assert(flags == flags_for(encrypted, compressed)) by {
            assert(0u32 | 1u32 == 1u32) by (bit_vector);
            assert(0u32 | 2u32 == 2u32) by (bit_vector);
            assert(1u32 | 2u32 == 3u32) by (bit_vector);
        }
        let mut header = CapsuleHeader {
            magic: CAPSULE_MAGIC,
            version: CAPSULE_VERSION,
            capsule_index,
            capsule_size,
            data_size,
            flags,
            reserved: [0u8;8],
            header_checksum: 0,
            data_offset: CAPSULE_HEADER_SIZE as u32,
        };
        assert(header.reserved@ =~= Seq::new(8, |i: int| 0u8));
        header.header_checksum = header.calculate_checksum_without_field();
        header
    }

    /// The 44 bytes of the header as they stand in a capsule file.
    pub fn to_bytes(&self) -> (bytes: Vec<u8>)
        ensures
            bytes@ == self@.encoding(),
            bytes@.len() == 44,
    {
        let mut bytes: Vec<u8> = Vec::with_capacity(CAPSULE_HEADER_SIZE);
        bytes.extend_from_slice(&self.magic);
        bytes.extend_from_slice(&u32_to_le_bytes(self.version));
        bytes.extend_from_slice(&u32_to_le_bytes(self.capsule_index));
        bytes.extend_from_slice(&u32_to_le_bytes(self.capsule_size));
        bytes.extend_from_slice(&u32_to_le_bytes(self.data_size));
        bytes.extend_from_slice(&u32_to_le_bytes(self.flags));
        bytes.extend_from_slice(&self.reserved);
        bytes.extend_from_slice(&u32_to_le_bytes(self.header_checksum));
        bytes.extend_from_slice(&u32_to_le_bytes(self.data_offset));
        bytes
    }

    /// Decodes and checks the header that the first 44 bytes of `bytes` hold.
    pub fn from_bytes(bytes: &[u8]) -> (decoded: Result<CapsuleHeader, CapsuleError>)
        ensures
            match decoded {
                Ok(header) => decoded_header(bytes@) == Ok::<HeaderView, CapsuleErrorView>(
                    header@,
                ),
                Err(error) => decoded_header(bytes@) == Err::<HeaderView, CapsuleErrorView>(
                    error@,
                ),
            },
    {
        if bytes.len() < CAPSULE_HEADER_SIZE {
            return Err(CapsuleError::InvalidFormat);
        }
        let magic = read_eight(bytes, 0);
        if !bytes_equal(&magic, &CAPSULE_MAGIC) {
            return Err(CapsuleError::InvalidFormat);
        }
        let header = CapsuleHeader {
            magic,
            version: u32_from_le_bytes(bytes, 8),
            capsule_index: u32_from_le_bytes(bytes, 12),
            capsule_size: u32_from_le_bytes(bytes, 16),
            data_size: u32_from_le_bytes(bytes, 20),
            flags: u32_from_le_bytes(bytes, 24),
            reserved: read_eight(bytes, 28),
            header_checksum: u32_from_le_bytes(bytes, 36),
            data_offset: u32_from_le_bytes(bytes, 40),
        };
        assert(header@ == parsed_header(bytes@));
        let expected_checksum = header.calculate_checksum_without_field();
        if header.header_checksum != expected_checksum {
            return Err(CapsuleError::ChecksumMismatch);
        }
        if header.version != CAPSULE_VERSION {
            return Err(CapsuleError::InvalidFormat);
        }
        if !is_ladder_size(header.capsule_size as usize) {
            return Err(CapsuleError::InvalidFormat);
        }
        if header.data_offset != CAPSULE_HEADER_SIZE as u32 {
            return Err(CapsuleError::InvalidFormat);
        }
        Ok(header)
    }

    /// The checksum of every field but the checksum itself.
    pub fn calculate_checksum_without_field(&self) -> (sum: u32)
        ensures
            sum == crc32(self@.checksummed_bytes()),
    {
        let mut bytes: Vec<u8> = Vec::with_capacity(CAPSULE_HEADER_SIZE - 4);
        bytes.extend_from_slice(&self.magic);
        bytes.extend_from_slice(&u32_to_le_bytes(self.version));
        bytes.extend_from_slice(&u32_to_le_bytes(self.capsule_index));
        bytes.extend_from_slice(&u32_to_le_bytes(self.capsule_size));
        bytes.extend_from_slice(&u32_to_le_bytes(self.data_size));
        bytes.extend_from_slice(&u32_to_le_bytes(self.flags));
        bytes.extend_from_slice(&self.reserved);
        bytes.extend_from_slice(&u32_to_le_bytes(self.data_offset));
        assert(bytes@ =~= self@.checksummed_bytes());
        crc32_of(bytes.as_slice())
    }

    /// The encrypted bit of the flags.
    pub open spec fn spec_is_encrypted(&self) -> bool {
        self.flags & 1 != 0
    }

    /// The compressed bit of the flags.
    pub open spec fn spec_is_compressed(&self) -> bool {
        self.flags & 2 != 0
    }

    /// Whether the capsule's chunk was encrypted.
    #[verifier::when_used_as_spec(spec_is_encrypted)]
    pub fn is_encrypted(&self) -> (encrypted: bool)
        ensures
            encrypted == (self.flags & 1 != 0),
    {
        (self.flags & FLAG_ENCRYPTED) != 0
    }

    /// Whether the capsule's chunk was compressed.
    #[verifier::when_used_as_spec(spec_is_compressed)]
    pub fn is_compressed(&self) -> (compressed: bool)
        ensures
            compressed == (self.flags & 2 != 0),
    {
        (self.flags & FLAG_COMPRESSED) != 0
    }
}

/// The flags of a new header give back the two choices they were made from.
pub proof fn lemma_flags_read_back(encrypted: bool, compressed: bool)
    ensures
        (flags_for(encrypted, compressed) & 1 != 0) == encrypted,
        (flags_for(encrypted, compressed) & 2 != 0) == compressed,
{
    assert(0u32 & 1 == 0 && 1u32 & 1 == 1 && 2u32 & 1 == 0 && 3u32 & 1 == 1) by (bit_vector);
    assert(0u32 & 2 == 0 && 1u32 & 2 == 0 && 2u32 & 2 == 2 && 3u32 & 2 == 2) by (bit_vector);
}

/// An encoded header is 44 bytes long, and its fields read back as they were
/// written.
pub proof fn lemma_parse_of_encoding(header: HeaderView, rest: Seq<u8>)
    requires
        header.well_shaped(),
    ensures
        header.encoding().len() == 44,
        parsed_header(header.encoding() + rest) == header,
{
    let bytes = header.encoding() + rest;
    let parsed = parsed_header(bytes);
    let empty = Seq::<u8>::empty();
    let m = header.magic;
    let f1 = u32_le(header.version);
    let f2 = u32_le(header.capsule_index);
    let f3 = u32_le(header.capsule_size);
    let f4 = u32_le(header.data_size);
    let f5 = u32_le(header.flags);
    let r = header.reserved;
    let f6 = u32_le(header.header_checksum);
    let f7 = u32_le(header.data_offset);
    assert(parsed.magic =~= header.magic);
    assert(parsed.reserved =~= header.reserved);
    lemma_u32_le_round_trip(header.version, m, f2 + f3 + f4 + f5 + r + f6 + f7 + rest);
    assert(bytes =~= m + f1 + (f2 + f3 + f4 + f5 + r + f6 + f7 + rest));
    lemma_u32_le_round_trip(header.capsule_index, m + f1, f3 + f4 + f5 + r + f6 + f7 + rest);
    assert(bytes =~= (m + f1) + f2 + (f3 + f4 + f5 + r + f6 + f7 + rest));
    lemma_u32_le_round_trip(header.capsule_size, m + f1 + f2, f4 + f5 + r + f6 + f7 + rest);
    assert(bytes =~= (m + f1 + f2) + f3 + (f4 + f5 + r + f6 + f7 + rest));
    lemma_u32_le_round_trip(header.data_size, m + f1 + f2 + f3, f5 + r + f6 + f7 + rest);
    assert(bytes =~= (m + f1 + f2 + f3) + f4 + (f5 + r + f6 + f7 + rest));
    lemma_u32_le_round_trip(header.flags, m + f1 + f2 + f3 + f4, r + f6 + f7 + rest);
    assert(bytes =~= (m + f1 + f2 + f3 + f4) + f5 + (r + f6 + f7 + rest));
    lemma_u32_le_round_trip(header.header_checksum, m + f1 + f2 + f3 + f4 + f5 + r, f7 + rest);
    assert(bytes =~= (m + f1 + f2 + f3 + f4 + f5 + r) + f6 + (f7 + rest));
    lemma_u32_le_round_trip(header.data_offset, m + f1 + f2 + f3 + f4 + f5 + r + f6, rest);
    assert(bytes =~= (m + f1 + f2 + f3 + f4 + f5 + r + f6) + f7 + rest);
}

/// Decoding the encoding of a valid header gives the header back, whatever
/// follows the 44 bytes.
pub proof fn lemma_header_round_trip(header: HeaderView, rest: Seq<u8>)
    requires
        header.is_valid(),
    ensures
        decoded_header(header.encoding() + rest) == Ok::<HeaderView, CapsuleErrorView>(header),
{
    lemma_parse_of_encoding(header, rest);
}

/// In a file that begins with the encoding of a valid header, the first 44
/// bytes decode to the header and the payload is what follows them.
pub proof fn lemma_file_parts(header: HeaderView, payload: Seq<u8>)
    requires
        header.is_valid(),
    ensures
        (header.encoding() + payload).len() == 44 + payload.len(),
        decoded_header((header.encoding() + payload).subrange(0, 44)) == Ok::<
            HeaderView,
            CapsuleErrorView,
        >(header),
        (header.encoding() + payload).subrange(44, (header.encoding() + payload).len() as int)
            == payload,
{
    let file = header.encoding() + payload;
    lemma_parse_of_encoding(header, Seq::<u8>::empty());
    lemma_header_round_trip(header, Seq::<u8>::empty());
    assert(file.subrange(0, 44) =~= header.encoding() + Seq::<u8>::empty());
    assert(file.subrange(44, file.len() as int) =~= payload);
}

/// A header that decoding accepts is valid, and the bytes it was decoded from
/// begin with its encoding.
pub proof fn lemma_decoded_is_valid(bytes: Seq<u8>)
    requires
        decoded_header(bytes) is Ok,
    ensures
        decoded_header(bytes)->Ok_0.is_valid(),
        decoded_header(bytes)->Ok_0.encoding() == bytes.subrange(0, 44),
{
    let header = parsed_header(bytes);
    lemma_u32_le_of_read(bytes, 8);
    lemma_u32_le_of_read(bytes, 12);
    lemma_u32_le_of_read(bytes, 16);
    lemma_u32_le_of_read(bytes, 20);
    lemma_u32_le_of_read(bytes, 24);
    lemma_u32_le_of_read(bytes, 36);
    lemma_u32_le_of_read(bytes, 40);
    assert(header.encoding() =~= bytes.subrange(0, 44));
}

/// A new header is valid whenever its size is a size of the ladder.
pub proof fn lemma_new_header_is_valid(
    capsule_index: u32,
    capsule_size: u32,
    data_size: u32,
    encrypted: bool,
    compressed: bool,
)
    requires
        is_capsule_size(capsule_size as int),
    ensures
        header_for(capsule_index, capsule_size, data_size, encrypted, compressed).is_valid(),
{
    let header = header_for(capsule_index, capsule_size, data_size, encrypted, compressed);
    let unsealed = HeaderView { header_checksum: 0, ..header };
    assert(header.checksummed_bytes() == unsealed.checksummed_bytes());
}

} // verus!
