use crate::digest::{sha256, sha256_of_parts};
use crate::error::{CapsuleError, CapsuleErrorView};
use crate::processor::StreamingCapsuleProcessor;
use crate::wire::{
    lemma_u32_le_round_trip, u32_be, u32_from_le, u32_from_le_bytes, u32_le, u32_to_be_bytes,
    u32_to_le_bytes,
};
use vstd::prelude::*;
use vstd::slice::slice_subrange;

verus! {

/// The four bytes that part the processed data from the filler.
pub const PADDING_MARKER: [u8; 4] = [0xFF, 0xFF, 0xFF, 0xFF];

/// The label hashed with a chunk's index into the seed of its filler: ASCII
/// `DIG_PADDING_SEED_V1`.
pub const PADDING_SEED_LABEL: [u8; 19] = [
    0x44,
    0x49,
    0x47,
    0x5f,
    0x50,
    0x41,
    0x44,
    0x44,
    0x49,
    0x4e,
    0x47,
    0x5f,
    0x53,
    0x45,
    0x45,
    0x44,
    0x5f,
    0x56,
    0x31,
];

/// The bytes of a payload that are neither processed data nor filler, and the
/// header's 44: what a capsule's size must exceed by more than the data's
/// length.
pub const FRAME_SIZE: usize = 52;

/// The 32 bytes that the filler of chunk `chunk_index` repeats: the digest of
/// the index, highest byte first, followed by the seed label.
pub open spec fn padding_seed(chunk_index: u32) -> Seq<u8> {
    sha256(u32_be(chunk_index) + PADDING_SEED_LABEL@)
}

/// `count` bytes of filler for chunk `chunk_index`: the seed, repeated and cut
/// to length.
pub open spec fn filler(chunk_index: u32, count: nat) -> Seq<u8> {
    Seq::new(count, |i: int| padding_seed(chunk_index)[i % 32])
}

/// The filler that a capsule of `capsule_size` bytes has room for beside
/// `data_len` bytes of data, the marker, the footer and the header. Padding
/// needs at least one byte of it.
pub open spec fn filler_len(data_len: nat, capsule_size: nat) -> int {
    capsule_size - 44 - data_len - 8
}

/// The footer: the data's length in four bytes, lowest byte first. A length
/// that four bytes cannot hold loses its high part.
pub open spec fn length_footer(data_len: nat) -> Seq<u8> {
    u32_le((data_len % 0x1_0000_0000) as u32)
}

/// The payload of a capsule of `capsule_size` bytes for the processed bytes
/// `data`: the data, the marker, the filler and the footer, `capsule_size - 44`
/// bytes in all. There is none where no byte of filler is left.
pub open spec fn padded_payload(data: Seq<u8>, capsule_size: nat, chunk_index: u32) -> Option<
    Seq<u8>,
> {
    if filler_len(data.len(), capsule_size) <= 0 {
        None
    } else {
        Some(
            data + PADDING_MARKER@ + filler(
                chunk_index,
                filler_len(data.len(), capsule_size) as nat,
            ) + length_footer(data.len()),
        )
    }
}

/// The message of the error that padding fails with.
pub open spec fn no_space_message() -> Seq<char> {
    "No space available for padding"@
}

/// What padding makes of the processed bytes `data` for a capsule of
/// `target_size` bytes: data that is already as long as the target stays as it
/// is; shorter data is padded to the payload of the capsule, and where no byte
/// of filler is left for it, padding fails.
pub open spec fn padding_outcome(data: Seq<u8>, target_size: nat, chunk_index: u32) -> Result<
    Seq<u8>,
    CapsuleErrorView,
> {
    if data.len() >= target_size {
        Ok(data)
    } else {
        match padded_payload(data, target_size, chunk_index) {
            Some(payload) => Ok(payload),
            None => Err(CapsuleErrorView::ConsensusViolation(no_space_message())),
        }
    }
}

/// The marker stands in `payload` at position `at`.
pub open spec fn marker_at(payload: Seq<u8>, at: int) -> bool {
    payload[at] == 0xFF && payload[at + 1] == 0xFF && payload[at + 2] == 0xFF && payload[at + 3]
        == 0xFF
}

/// The length that the last four bytes of `payload` state.
pub open spec fn stated_len(payload: Seq<u8>) -> int {
    u32_from_le(payload, payload.len() - 4) as int
}

/// `payload` holds a marker that at least four bytes precede and that ends
/// before the last byte, at or behind the end of the data that the footer
/// states.
pub open spec fn has_padding(payload: Seq<u8>) -> bool {
    exists|at: int| 4 <= at < payload.len() - 4 && marker_at(payload, at) && stated_len(payload) <= at
}

/// The processed bytes of a payload: as many bytes from its start as its
/// footer states where it holds such a marker, and all of it where it holds
/// none.
pub open spec fn unpadded(payload: Seq<u8>) -> Seq<u8> {
    if has_padding(payload) {
        payload.subrange(0, stated_len(payload))
    } else {
        payload
    }
}

impl StreamingCapsuleProcessor {
    /// Pads the processed bytes in `data` to the payload of a capsule of
    /// `target_size` bytes. Data that is already as long as the target is left
    /// as it is, and that is no failure. Shorter data for which the capsule
    /// has no room for a byte of filler is a failure, and is left as it was
    /// too.
    pub fn add_deterministic_padding(
        &self,
        data: &mut Vec<u8>,
        target_size: usize,
        chunk_index: u32,
    ) -> (padded: Result<(), CapsuleError>)
        ensures
            old(data)@.len() >= target_size ==> padded is Ok && final(data)@ == old(data)@,
            old(data)@.len() < target_size ==> match padded {
                Ok(_) => padded_payload(old(data)@, target_size as nat, chunk_index) == Some(
                    final(data)@,
                ),
                Err(error) => {
                    &&& padded_payload(old(data)@, target_size as nat, chunk_index) is None
                    &&& error@ == CapsuleErrorView::ConsensusViolation(no_space_message())
                    &&& final(data)@ == old(data)@
                },
            },
            match padded {
                Ok(_) => padding_outcome(old(data)@, target_size as nat, chunk_index) == Ok::<
                    Seq<u8>,
                    CapsuleErrorView,
                >(final(data)@),
                Err(error) => padding_outcome(old(data)@, target_size as nat, chunk_index) == Err::<
                    Seq<u8>,
                    CapsuleErrorView,
                >(error@),
            },
            padded is Ok && old(data)@.len() < target_size ==> final(data)@.len() == target_size
                - 44,
    {
        let current_size = data.len();
        if current_size >= target_size {
            return Ok(());
        }
        if target_size <= FRAME_SIZE || target_size - FRAME_SIZE <= current_size {
            return Err(CapsuleError::consensus_violation("No space available for padding"));
        }
        let padding_size = target_size - FRAME_SIZE - current_size;
        let seed = sha256_of_parts(&u32_to_be_bytes(chunk_index), &PADDING_SEED_LABEL);
        data.extend_from_slice(&PADDING_MARKER);
        let mut remaining_padding = padding_size;
        assert(data@ =~= old(data)@ + PADDING_MARKER@ + filler(chunk_index, 0));
        while remaining_padding > 0
            invariant
                remaining_padding <= padding_size,
                remaining_padding == 0 || (padding_size - remaining_padding) % 32 == 0,
                seed@ == padding_seed(chunk_index),
                data@ == old(data)@ + PADDING_MARKER@ + filler(
                    chunk_index,
                    (padding_size - remaining_padding) as nat,
                ),
            decreases remaining_padding,
        {
            let chunk_size: usize = if remaining_padding < 32 {
                remaining_padding
            } else {
                32
            };
            data.extend_from_slice(slice_subrange(seed.as_slice(), 0, chunk_size));
            assert(data@ =~= old(data)@ + PADDING_MARKER@ + filler(
                chunk_index,
                (padding_size - remaining_padding + chunk_size) as nat,
            ));
            remaining_padding -= chunk_size;
        }
        let original_size = (current_size as u64 % 4294967296) as u32;
        data.extend_from_slice(&u32_to_le_bytes(original_size));
        proof {
            assert(filler_len(current_size as nat, target_size as nat) == padding_size);
            assert(data@ =~= old(data)@ + PADDING_MARKER@ + filler(chunk_index, padding_size as nat)
                + length_footer(current_size as nat));
            assert(padded_payload(old(data)@, target_size as nat, chunk_index) == Some(data@));
        }
        Ok(())
    }

    /// Takes the processed bytes out of a payload: the marker is looked for
    /// from the tail toward the head, and the footer says how many bytes from
    /// the start they are. A payload that holds no marker is returned whole.
    pub fn remove_padding(&self, payload: &[u8]) -> (data: Vec<u8>)
        ensures
            data@ == unpadded(payload@),
    {
        let len = payload.len();
        if len >= 9 {
            let original_size = u32_from_le_bytes(payload, len - 4);
            let mut at = len - 4;
            while at > 4
                invariant
                    len == payload@.len(),
                    len >= 9,
                    4 <= at <= len - 4,
                    original_size == stated_len(payload@),
                    forall|i: int|
                        at <= i < len - 4 ==> !(marker_at(payload@, i) && stated_len(payload@)
                            <= i),
                decreases at,
            {
                at -= 1;
                if payload[at] == 0xFF && payload[at + 1] == 0xFF && payload[at + 2] == 0xFF
                    && payload[at + 3] == 0xFF {
                    if original_size as usize <= at {
                        assert(marker_at(payload@, at as int));
                        assert(has_padding(payload@));
                        return copy_of(slice_subrange(payload, 0, original_size as usize));
                    }
                }
            }
        }
        assert(payload@.subrange(0, len as int) =~= payload@);
        copy_of(payload)
    }
}

/// A vector that holds the bytes of `bytes`.
pub fn copy_of(bytes: &[u8]) -> (copy: Vec<u8>)
    ensures
        copy@ == bytes@,
{
    let mut copy: Vec<u8> = Vec::with_capacity(bytes.len());
    copy.extend_from_slice(bytes);
    copy
}

/// A padded payload fills its capsule: with the 44 bytes of the header it is
/// as long as the capsule's size.
pub proof fn lemma_padded_len(data: Seq<u8>, capsule_size: nat, chunk_index: u32)
    requires
        padded_payload(data, capsule_size, chunk_index) is Some,
    ensures
        padded_payload(data, capsule_size, chunk_index)->Some_0.len() + 44 == capsule_size,
        data.len() + 8 < padded_payload(data, capsule_size, chunk_index)->Some_0.len(),
{
}

/// Unpadding what padding made gives the processed bytes back, where they are
/// at least four and their length fits the footer.
pub proof fn lemma_unpad_of_pad(data: Seq<u8>, capsule_size: nat, chunk_index: u32)
    requires
        padded_payload(data, capsule_size, chunk_index) is Some,
        4 <= data.len() < 0x1_0000_0000,
    ensures
        unpadded(padded_payload(data, capsule_size, chunk_index)->Some_0) == data,
{
    let payload = padded_payload(data, capsule_size, chunk_index)->Some_0;
    let fill = filler(chunk_index, filler_len(data.len(), capsule_size) as nat);
    let at = data.len() as int;
    lemma_u32_le_round_trip(
        (data.len() % 0x1_0000_0000) as u32,
        data + PADDING_MARKER@ + fill,
        Seq::<u8>::empty(),
    );
    assert(payload =~= data + PADDING_MARKER@ + fill + length_footer(data.len())
        + Seq::<u8>::empty());
    assert(stated_len(payload) == at);
    assert(marker_at(payload, at));
    assert(has_padding(payload));
    assert(payload.subrange(0, at) =~= data);
}

} // verus!
