//! Deterministic content capsules: an input is cut into chunks by a fixed size
//! ladder, each chunk is sealed, compressed, padded to a ladder size and framed
//! by a 44-byte header, and a manifest describes the set.

pub mod capsule;
pub mod codec;
pub mod digest;
pub mod error;
pub mod header;
pub mod inspect;
pub mod ladder;
pub mod manifest;
pub mod names;
pub mod padding;
pub mod pipeline;
pub mod processor;
pub mod reconstruct;
pub mod wire;
