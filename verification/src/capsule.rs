use crate::digest::{hex_encode, hex_lower, sha256, sha256_of_parts};
use crate::error::{CapsuleError, CapsuleErrorView};
use crate::header::{
    decoded_header, header_for, lemma_file_parts, lemma_new_header_is_valid, CapsuleHeader,
    HeaderView, CAPSULE_HEADER_SIZE,
};
use crate::ladder::{find_optimal_capsule_size, is_capsule_size, optimal_capsule_size};
use crate::padding::{
    filler_len, lemma_padded_len, lemma_unpad_of_pad, no_space_message, padding_outcome, unpadded,
};
use crate::processor::{
    compressed, decompressed, opened_chunk, outcome, sealed_chunk, StreamingCapsuleProcessor,
};
use vstd::prelude::*;
use vstd::slice::slice_subrange;

verus! {

/// One capsule as it is written to its file: the header, the payload behind
/// it, and the hash of both.
#[derive(Debug, Clone)]
pub struct CapsuleData {
    pub header: CapsuleHeader,
    pub data: Vec<u8>,
    pub hash: String,
}

/// The mathematical value of a `CapsuleData`.
pub struct CapsuleDataView {
    pub header: HeaderView,
    pub data: Seq<u8>,
    pub hash: Seq<char>,
}

impl View for CapsuleData {
    type V = CapsuleDataView;

    open spec fn view(&self) -> CapsuleDataView {
        CapsuleDataView { header: self.header@, data: self.data@, hash: self.hash@ }
    }
}

impl CapsuleDataView {
    /// The bytes of the capsule's file: the 44 bytes of the header, then the
    /// payload.
    pub open spec fn file_bytes(self) -> Seq<u8> {
        self.header.encoding() + self.data
    }

    /// What holds of every capsule that is made: its header is valid, its file
    /// is exactly as long as its size says, and the header states the
    /// payload's length.
    pub open spec fn is_sound(self) -> bool {
        &&& self.header.is_valid()
        &&& self.file_bytes().len() == self.header.capsule_size
        &&& self.header.data_size == self.data.len()
        &&& self.hash == hex_lower(sha256(self.file_bytes()))
    }
}

impl CapsuleData {
    /// The bytes of the capsule's file.
    pub fn to_file_bytes(&self) -> (bytes: Vec<u8>)
        ensures
            bytes@ == self@.file_bytes(),
    {
        let mut bytes = self.header.to_bytes();
        bytes.extend_from_slice(self.data.as_slice());
        bytes
    }
}

/// The capsule made of chunk `chunk_index`, planned for `target` bytes: the
/// chunk is encrypted, then compressed; the capsule's size is chosen for the
/// compressed length; the payload is padded to that size and framed by a
/// header; the hash is the SHA-256 digest of header and payload in
/// hexadecimal. The first step that fails gives the error. A stream that the
/// padding left as it was, being as long as the chosen size or longer, fills
/// no capsule: it is a consensus violation with the message of a padding that
/// found no room.
#[verifier::opaque]
pub open spec fn built_capsule(
    key: Option<Seq<u8>>,
    chunk_index: u32,
    target: usize,
    chunk: Seq<u8>,
) -> Result<CapsuleDataView, CapsuleErrorView> {
    match sealed_chunk(key, chunk_index, chunk) {
        Err(error) => Err(error),
        Ok(sealed) => match compressed(sealed) {
            Err(error) => Err(error),
            Ok(stream) => {
                let size = optimal_capsule_size(stream.len(), target as nat);
                match padding_outcome(stream, size, chunk_index) {
                    Err(error) => Err(error),
                    Ok(payload) => if payload.len() + 44 != size {
                        Err(CapsuleErrorView::ConsensusViolation(no_space_message()))
                    } else {
                        let header = header_for(
                            chunk_index,
                            size as u32,
                            payload.len() as u32,
                            key is Some,
                            true,
                        );
                        Ok(
                            CapsuleDataView {
                                header,
                                data: payload,
                                hash: hex_lower(sha256(header.encoding() + payload)),
                            },
                        )
                    },
                }
            },
        },
    }
}

/// The chunk read back out of a capsule file: the header is decoded, the
/// payload behind it unpadded and decompressed, and the result decrypted
/// under the nonce of the index that the header states. A file shorter than a
/// header is an `IoError`.
#[verifier::opaque]
pub open spec fn opened_capsule(key: Option<Seq<u8>>, file: Seq<u8>) -> Result<
    Seq<u8>,
    CapsuleErrorView,
> {
    if file.len() < 44 {
        Err(CapsuleErrorView::IoError)
    } else {
        match decoded_header(file.subrange(0, 44)) {
            Err(error) => Err(error),
            Ok(header) => match decompressed(unpadded(file.subrange(44, file.len() as int))) {
                Err(error) => Err(error),
                Ok(sealed) => opened_chunk(key, header.capsule_index, sealed),
            },
        }
    }
}

/// For a planned size of the ladder, the size chosen for a compressed chunk
/// has room for its padding unless the chunk, with marker, footer, header and
/// one byte of filler, is too long for the largest capsule.
pub proof fn lemma_chosen_size_has_room(data_len: nat, target: nat)
    requires
        is_capsule_size(target as int),
    ensures
        filler_len(data_len, optimal_capsule_size(data_len, target)) > 0 <==> data_len + 52
            < 1048576000,
        is_capsule_size(optimal_capsule_size(data_len, target) as int),
{
}

/// A chunk becomes a capsule exactly if it can be sealed and compressed and
/// its compressed length leaves room in the largest capsule.
pub proof fn lemma_built_when(key: Option<Seq<u8>>, chunk_index: u32, target: usize, chunk: Seq<u8>)
    requires
        is_capsule_size(target as int),
    ensures
        built_capsule(key, chunk_index, target, chunk) is Ok <==> (sealed_chunk(
            key,
            chunk_index,
            chunk,
        ) matches Ok(sealed) && compressed(sealed) matches Ok(stream) && stream.len() + 52
            < 1048576000),
{
    reveal(built_capsule);
    if let Ok(sealed) = sealed_chunk(key, chunk_index, chunk) {
        if let Ok(stream) = compressed(sealed) {
            lemma_chosen_size_has_room(stream.len(), target as nat);
        }
    }
}

/// A padded stream behind its header is a sound capsule file, and the chunk
/// that the stream was made of is read back out of it.
proof fn lemma_framed_stream_opens(
    key: Option<Seq<u8>>,
    chunk_index: u32,
    size: nat,
    encrypted: bool,
    stream: Seq<u8>,
    sealed: Seq<u8>,
    chunk: Seq<u8>,
)
    requires
        is_capsule_size(size as int),
        padding_outcome(stream, size, chunk_index) is Ok,
        padding_outcome(stream, size, chunk_index)->Ok_0.len() + 44 == size,
        stream.len() >= 4,
        decompressed(stream) == Ok::<Seq<u8>, CapsuleErrorView>(sealed),
        opened_chunk(key, chunk_index, sealed) == Ok::<Seq<u8>, CapsuleErrorView>(chunk),
    ensures
        ({
            let payload = padding_outcome(stream, size, chunk_index)->Ok_0;
            let header = header_for(chunk_index, size as u32, payload.len() as u32, encrypted, true);
            &&& header.is_valid()
            &&& header.capsule_index == chunk_index
            &&& header.capsule_size == size
            &&& header.data_size == payload.len()
            &&& (header.encoding() + payload).len() == size
            &&& opened_capsule(key, header.encoding() + payload) == Ok::<
                Seq<u8>,
                CapsuleErrorView,
            >(chunk)
        }),
{
    let payload = padding_outcome(stream, size, chunk_index)->Ok_0;
    let header = header_for(chunk_index, size as u32, payload.len() as u32, encrypted, true);
    let file = header.encoding() + payload;
    lemma_new_header_is_valid(chunk_index, size as u32, payload.len() as u32, encrypted, true);
    lemma_file_parts(header, payload);
    lemma_padded_len(stream, size, chunk_index);
    lemma_unpad_of_pad(stream, size, chunk_index);
    assert(unpadded(file.subrange(44, file.len() as int)) == stream);
    reveal(opened_capsule);
}

/// The mathematical value of an attempt to make a capsule.
pub open spec fn capsule_outcome(result: Result<CapsuleData, CapsuleError>) -> Result<
    CapsuleDataView,
    CapsuleErrorView,
> {
    match result {
        Ok(capsule) => Ok(capsule@),
        Err(error) => Err(error@),
    }
}

impl StreamingCapsuleProcessor {
    /// Makes the capsule of chunk `chunk_index`, planned for
    /// `target_chunk_size` bytes. The capsule that comes out is sound, and
    /// `open_capsule` under the same key reads the chunk back out of its file.
    pub fn build_capsule(&self, chunk: &[u8], chunk_index: u32, target_chunk_size: usize) -> (built:
        Result<CapsuleData, CapsuleError>)
        requires
            is_capsule_size(target_chunk_size as int),
        ensures
            capsule_outcome(built) == built_capsule(
                self.key(),
                chunk_index,
                target_chunk_size,
                chunk@,
            ),
            built matches Ok(capsule) ==> capsule@.is_sound() && capsule@.header.capsule_index
                == chunk_index,
            built matches Ok(capsule) ==> opened_capsule(self.key(), capsule@.file_bytes()) == Ok::<
                Seq<u8>,
                CapsuleErrorView,
            >(chunk@),
    {
        reveal(built_capsule);
        let encrypted_data = match self.encrypt_stream(chunk, chunk_index) {
            Ok(bytes) => bytes,
            Err(error) => {
                return Err(error);
            },
        };
        let compressed_data = match self.compress_stream(encrypted_data.as_slice()) {
            Ok(bytes) => bytes,
            Err(error) => {
                return Err(error);
            },
        };
        let optimal_capsule_size = find_optimal_capsule_size(
            compressed_data.len(),
            target_chunk_size,
        );
        let mut final_data = compressed_data;
        let ghost stream = final_data@;
        match self.add_deterministic_padding(&mut final_data, optimal_capsule_size, chunk_index) {
            Ok(_) => {},
            Err(error) => {
                return Err(error);
            },
        }
        if final_data.len() != optimal_capsule_size - CAPSULE_HEADER_SIZE {
            return Err(CapsuleError::consensus_violation("No space available for padding"));
        }
        let header = CapsuleHeader::new(
            chunk_index,
            optimal_capsule_size as u32,
            final_data.len() as u32,
            self.encryption_key.is_some(),
            true,
        );
        let header_bytes = header.to_bytes();
        let digest = sha256_of_parts(header_bytes.as_slice(), final_data.as_slice());
        let capsule = CapsuleData { header, data: final_data, hash: hex_encode(&digest) };
        proof {
            lemma_framed_stream_opens(
                self.key(),
                chunk_index,
                optimal_capsule_size as nat,
                self.encryption_key.is_some(),
                stream,
                encrypted_data@,
                chunk@,
            );
        }
        Ok(capsule)
    }

    /// Reads the chunk back out of the bytes of a capsule file.
    pub fn open_capsule(&self, file: &[u8]) -> (opened: Result<Vec<u8>, CapsuleError>)
        ensures
            outcome(opened) == opened_capsule(self.key(), file@),
    {
        reveal(opened_capsule);
        if file.len() < CAPSULE_HEADER_SIZE {
            return Err(CapsuleError::IoError);
        }
        let header = match CapsuleHeader::from_bytes(slice_subrange(file, 0, CAPSULE_HEADER_SIZE)) {
            Ok(header) => header,
            Err(error) => {
                return Err(error);
            },
        };
        let no_padding_data = self.remove_padding(
            slice_subrange(file, CAPSULE_HEADER_SIZE, file.len()),
        );
        let decompressed_data = match self.decompress_stream(no_padding_data.as_slice()) {
            Ok(bytes) => bytes,
            Err(error) => {
                return Err(error);
            },
        };
        self.decrypt_stream(decompressed_data.as_slice(), header.capsule_index)
    }
}

} // verus!
