use crate::error::{CapsuleError, CapsuleErrorView};
use crate::ladder::{is_capsule_size, is_ladder_size};
use vstd::prelude::*;
use vstd::string::*;

verus! {

/// One capsule as the manifest lists it.
#[derive(Debug, Clone)]
pub struct Capsule {
    pub index: u32,
    pub size: u32,
    pub hash: String,
    pub encrypted: bool,
    pub compressed: bool,
}

/// How the chunks were encrypted. The key derivation, the iterations and the
/// salt are labels kept for the readers of the manifest.
#[derive(Debug, Clone)]
pub struct EncryptionInfo {
    pub algorithm: String,
    pub key_derivation: String,
    pub iterations: u32,
    pub salt: String,
}

/// How the chunks were compressed.
#[derive(Debug, Clone)]
pub struct CompressionInfo {
    pub algorithm: String,
    pub level: u32,
    pub original_size: u64,
}

/// What the manifest says of the input and of the way it was cut.
#[derive(Debug, Clone)]
pub struct CapsuleMetadata {
    pub original_size: u64,
    pub capsule_count: u32,
    pub capsule_sizes: Vec<u32>,
    pub checksum: String,
    pub chunking_algorithm: String,
    pub consensus_version: String,
    pub encryption_info: Option<EncryptionInfo>,
    pub compression_info: Option<CompressionInfo>,
}

/// The manifest of a capsule set.
#[derive(Debug, Clone)]
pub struct CapsuleSet {
    pub id: String,
    pub capsules: Vec<Capsule>,
    pub metadata: CapsuleMetadata,
}

/// What the header of a capsule file says, for display.
#[derive(Debug, Clone)]
pub struct CapsuleFileInfo {
    pub magic: String,
    pub version: u32,
    pub capsule_index: u32,
    pub capsule_size: u32,
    pub data_size: u32,
    pub is_encrypted: bool,
    pub is_compressed: bool,
    pub checksum: String,
}

/// The mathematical value of a `Capsule`.
pub struct CapsuleView {
    pub index: u32,
    pub size: u32,
    pub hash: Seq<char>,
    pub encrypted: bool,
    pub compressed: bool,
}

/// The mathematical value of an `EncryptionInfo`.
pub struct EncryptionInfoView {
    pub algorithm: Seq<char>,
    pub key_derivation: Seq<char>,
    pub iterations: u32,
    pub salt: Seq<char>,
}

/// The mathematical value of a `CompressionInfo`.
pub struct CompressionInfoView {
    pub algorithm: Seq<char>,
    pub level: u32,
    pub original_size: u64,
}

/// The mathematical value of a `CapsuleMetadata`.
pub struct CapsuleMetadataView {
    pub original_size: u64,
    pub capsule_count: u32,
    pub capsule_sizes: Seq<u32>,
    pub checksum: Seq<char>,
    pub chunking_algorithm: Seq<char>,
    pub consensus_version: Seq<char>,
    pub encryption_info: Option<EncryptionInfoView>,
    pub compression_info: Option<CompressionInfoView>,
}

/// The mathematical value of a `CapsuleSet`: the texts as sequences of
/// characters, the lists as sequences.
pub struct CapsuleSetView {
    pub id: Seq<char>,
    pub capsules: Seq<CapsuleView>,
    pub metadata: CapsuleMetadataView,
}

/// The mathematical value of a `CapsuleFileInfo`.
pub struct CapsuleFileInfoView {
    pub magic: Seq<char>,
    pub version: u32,
    pub capsule_index: u32,
    pub capsule_size: u32,
    pub data_size: u32,
    pub is_encrypted: bool,
    pub is_compressed: bool,
    pub checksum: Seq<char>,
}

impl View for Capsule {
    type V = CapsuleView;

    open spec fn view(&self) -> CapsuleView {
        CapsuleView {
            index: self.index,
            size: self.size,
            hash: self.hash@,
            encrypted: self.encrypted,
            compressed: self.compressed,
        }
    }
}

impl View for EncryptionInfo {
    type V = EncryptionInfoView;

    open spec fn view(&self) -> EncryptionInfoView {
        EncryptionInfoView {
            algorithm: self.algorithm@,
            key_derivation: self.key_derivation@,
            iterations: self.iterations,
            salt: self.salt@,
        }
    }
}

impl View for CompressionInfo {
    type V = CompressionInfoView;

    open spec fn view(&self) -> CompressionInfoView {
        CompressionInfoView {
            algorithm: self.algorithm@,
            level: self.level,
            original_size: self.original_size,
        }
    }
}

impl View for CapsuleMetadata {
    type V = CapsuleMetadataView;

    open spec fn view(&self) -> CapsuleMetadataView {
        CapsuleMetadataView {
            original_size: self.original_size,
            capsule_count: self.capsule_count,
            capsule_sizes: self.capsule_sizes@,
            checksum: self.checksum@,
            chunking_algorithm: self.chunking_algorithm@,
            consensus_version: self.consensus_version@,
            encryption_info: match self.encryption_info {
                Some(info) => Some(info@),
                None => None,
            },
            compression_info: match self.compression_info {
                Some(info) => Some(info@),
                None => None,
            },
        }
    }
}

impl View for CapsuleSet {
    type V = CapsuleSetView;

    open spec fn view(&self) -> CapsuleSetView {
        CapsuleSetView {
            id: self.id@,
            capsules: Seq::new(self.capsules@.len(), |i: int| self.capsules@[i]@),
            metadata: self.metadata@,
        }
    }
}

impl View for CapsuleFileInfo {
    type V = CapsuleFileInfoView;

    open spec fn view(&self) -> CapsuleFileInfoView {
        CapsuleFileInfoView {
            magic: self.magic@,
            version: self.version,
            capsule_index: self.capsule_index,
            capsule_size: self.capsule_size,
            data_size: self.data_size,
            is_encrypted: self.is_encrypted,
            is_compressed: self.is_compressed,
            checksum: self.checksum@,
        }
    }
}

/// The name of the one consensus version.
pub open spec fn consensus_version_name() -> Seq<char> {
    "DIG_CAPSULE_V1"@
}

/// The name of the one chunking algorithm.
pub open spec fn chunking_algorithm_name() -> Seq<char> {
    "DIG_DETERMINISTIC_V1"@
}

/// What a manifest says of the encryption of its capsules.
pub open spec fn encryption_labels() -> EncryptionInfoView {
    EncryptionInfoView {
        algorithm: "AES-256-GCM"@,
        key_derivation: "PBKDF2-HMAC-SHA256"@,
        iterations: 100000,
        salt: "DIG_CAPSULE_SALT_V1"@,
    }
}

/// What a manifest says of the compression of an input of `original_size`
/// bytes.
pub open spec fn compression_labels(original_size: u64) -> CompressionInfoView {
    CompressionInfoView { algorithm: "gzip"@, level: 6, original_size }
}

/// The first fault that the consensus check finds in a manifest, by its
/// message: a foreign consensus version, a foreign chunking algorithm, or a
/// capsule whose size is not on the ladder.
pub open spec fn consensus_fault(set: CapsuleSetView) -> Option<Seq<char>> {
    if set.metadata.consensus_version != consensus_version_name() {
        Some("Invalid consensus version"@)
    } else if set.metadata.chunking_algorithm != chunking_algorithm_name() {
        Some("Invalid chunking algorithm"@)
    } else if exists|i: int|
        0 <= i < set.capsules.len() && !is_capsule_size(#[trigger] set.capsules[i].size as int) {
        Some("Invalid capsule size"@)
    } else {
        None
    }
}

/// The name of the consensus version that this library writes and accepts.
pub fn get_consensus_version() -> (version: String)
    ensures
        version@ == consensus_version_name(),
{
    String::from_str("DIG_CAPSULE_V1")
}

/// The encryption entry of a manifest.
pub fn encryption_info() -> (info: EncryptionInfo)
    ensures
        info@ == encryption_labels(),
{
    EncryptionInfo {
        algorithm: String::from_str("AES-256-GCM"),
        key_derivation: String::from_str("PBKDF2-HMAC-SHA256"),
        iterations: 100000,
        salt: String::from_str("DIG_CAPSULE_SALT_V1"),
    }
}

/// The compression entry of a manifest.
pub fn compression_info(original_size: u64) -> (info: CompressionInfo)
    ensures
        info@ == compression_labels(original_size),
{
    CompressionInfo { algorithm: String::from_str("gzip"), level: 6, original_size }
}

/// Checks the parameters of a manifest that every node must agree on.
/// Returns `true`, or the first fault as a consensus violation.
pub fn validate_consensus_parameters(capsule_set: CapsuleSet) -> (checked: Result<
    bool,
    CapsuleError,
>)
    ensures
        match checked {
            Ok(valid) => valid && consensus_fault(capsule_set@) is None,
            Err(error) => consensus_fault(capsule_set@) matches Some(message) && error@
                == CapsuleErrorView::ConsensusViolation(message),
        },
{
    if capsule_set.metadata.consensus_version != String::from_str("DIG_CAPSULE_V1") {
        return Err(CapsuleError::consensus_violation("Invalid consensus version"));
    }
    if capsule_set.metadata.chunking_algorithm != String::from_str("DIG_DETERMINISTIC_V1") {
        return Err(CapsuleError::consensus_violation("Invalid chunking algorithm"));
    }
    let mut position: usize = 0;
    while position < capsule_set.capsules.len()
        invariant
            position <= capsule_set.capsules@.len(),
            capsule_set@.metadata.consensus_version == consensus_version_name(),
            capsule_set@.metadata.chunking_algorithm == chunking_algorithm_name(),
            forall|i: int|
                0 <= i < position ==> is_capsule_size(
                    #[trigger] capsule_set@.capsules[i].size as int,
                ),
        decreases capsule_set.capsules@.len() - position,
    {
        if !is_ladder_size(capsule_set.capsules[position].size as usize) {
            assert(!is_capsule_size(capsule_set@.capsules[position as int].size as int));
            return Err(CapsuleError::consensus_violation("Invalid capsule size"));
        }
        position += 1;
    }
    Ok(true)
}

} // verus!
