//! Codec for the Prusa binary G-code (`bgcode`) container format: a fixed
//! file header followed by typed, optionally compressed, optionally
//! checksummed blocks, with a streaming deserialiser, a block serialiser,
//! and a converter between the binary form and canonical textual G-code.

use vstd::prelude::*;

pub mod common;
pub mod compression;
pub mod convert;
pub mod deserialiser;
pub mod file_header;
pub mod laws;
pub mod render;
pub mod serialiser;

pub use common::{BinaryGcodeError, BlockKind, Checksum, CompressionAlgorithm, Encoding};
pub use convert::ascii_to_binary;
pub use deserialiser::{
    DeserialisedBlock, DeserialisedFileHeader, DeserialisedResult, Deserialiser,
};
pub use render::binary_to_ascii;
pub use serialiser::{serialise_block, serialise_file_header};
