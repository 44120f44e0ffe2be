use vstd::prelude::*;
use vstd::string::*;

verus! {

/// What can go wrong while capsules are made or read back.
#[derive(Debug, Clone)]
pub enum CapsuleError {
    InvalidFormat,
    UnsupportedSize,
    ChecksumMismatch,
    ConsensusViolation(String),
    CompressionFailed,
    DecryptionFailed,
    EncryptionFailed,
    IoError,
}

/// The mathematical value of a `CapsuleError`: the same cases, the message as
/// a sequence of characters.
pub enum CapsuleErrorView {
    InvalidFormat,
    UnsupportedSize,
    ChecksumMismatch,
    ConsensusViolation(Seq<char>),
    CompressionFailed,
    DecryptionFailed,
    EncryptionFailed,
    IoError,
}

impl View for CapsuleError {
    type V = CapsuleErrorView;

    open spec fn view(&self) -> CapsuleErrorView {
        match self {
            CapsuleError::InvalidFormat => CapsuleErrorView::InvalidFormat,
            CapsuleError::UnsupportedSize => CapsuleErrorView::UnsupportedSize,
            CapsuleError::ChecksumMismatch => CapsuleErrorView::ChecksumMismatch,
            CapsuleError::ConsensusViolation(message) => CapsuleErrorView::ConsensusViolation(
                message@,
            ),
            CapsuleError::CompressionFailed => CapsuleErrorView::CompressionFailed,
            CapsuleError::DecryptionFailed => CapsuleErrorView::DecryptionFailed,
            CapsuleError::EncryptionFailed => CapsuleErrorView::EncryptionFailed,
            CapsuleError::IoError => CapsuleErrorView::IoError,
        }
    }
}

/// The text that describes an error.
pub open spec fn error_text(error: CapsuleErrorView) -> Seq<char> {
    match error {
        CapsuleErrorView::InvalidFormat => "Invalid format"@,
        CapsuleErrorView::UnsupportedSize => "Unsupported size"@,
        CapsuleErrorView::ChecksumMismatch => "Checksum mismatch"@,
        CapsuleErrorView::ConsensusViolation(message) => "Consensus violation: "@ + message,
        CapsuleErrorView::CompressionFailed => "Compression failed"@,
        CapsuleErrorView::DecryptionFailed => "Decryption failed"@,
        CapsuleErrorView::EncryptionFailed => "Encryption failed"@,
        CapsuleErrorView::IoError => "IO error"@,
    }
}

impl CapsuleError {
    /// The text that describes this error, as a host would show it.
    pub fn message(&self) -> (text: String)
        ensures
            text@ == error_text(self@),
    {
        match self {
            CapsuleError::InvalidFormat => String::from_str("Invalid format"),
            CapsuleError::UnsupportedSize => String::from_str("Unsupported size"),
            CapsuleError::ChecksumMismatch => String::from_str("Checksum mismatch"),
            CapsuleError::ConsensusViolation(message) => String::from_str(
                "Consensus violation: ",
            ).concat(message.as_str()),
            CapsuleError::CompressionFailed => String::from_str("Compression failed"),
            CapsuleError::DecryptionFailed => String::from_str("Decryption failed"),
            CapsuleError::EncryptionFailed => String::from_str("Encryption failed"),
            CapsuleError::IoError => String::from_str("IO error"),
        }
    }

    /// A consensus violation with the given message.
    pub fn consensus_violation(message: &str) -> (error: CapsuleError)
        ensures
            error@ == CapsuleErrorView::ConsensusViolation(message@),
    {
        CapsuleError::ConsensusViolation(String::from_str(message))
    }
}

#[verifier::external_type_specification]
#[verifier::external_body]
pub struct ExIoError(std::io::Error);

impl From<std::io::Error> for CapsuleError {
    /// A failed read or write is reported as `IoError`, whatever its cause.
    fn from(error: std::io::Error) -> (converted: CapsuleError) {
        CapsuleError::IoError
    }
}

impl vstd::std_specs::convert::FromSpecImpl<std::io::Error> for CapsuleError {
    open spec fn obeys_from_spec() -> bool {
        true
    }

    open spec fn from_spec(error: std::io::Error) -> CapsuleError {
        CapsuleError::IoError
    }
}

} // verus!
