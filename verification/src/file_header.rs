//! The fixed ten-byte file header that opens every binary G-code stream:
//! magic, format version, and the checksum algorithm used by the blocks
//! that follow.

use vstd::prelude::*;

use crate::common::{u16_le, u16_le_bytes, u32_le, u32_le_bytes, read_u16_le, read_u32_le, MAGIC};

verus! {

/// The checksum algorithms a file header can declare.
#[derive(Debug, Clone, Copy, PartialEq, Eq, Structural)]
pub enum FileChecksum {
    NoChecksum,
    Crc32,
}

/// The 16-bit code a file checksum variant is written as.
pub open spec fn file_checksum_code(c: FileChecksum) -> u16 {
    match c {
        FileChecksum::NoChecksum => 0,
        FileChecksum::Crc32 => 1,
    }
}

/// How many checksum bytes each block carries under this setting.
pub open spec fn spec_file_checksum_size(c: FileChecksum) -> int {
    match c {
        FileChecksum::NoChecksum => 0,
        FileChecksum::Crc32 => 4,
    }
}

impl FileChecksum {
    /// The little-endian byte pair for this checksum variant.
    pub fn to_le_bytes(&self) -> (r: [u8; 2])
        ensures
            r@ == u16_le_bytes(file_checksum_code(*self)),
    {
        let r: [u8; 2] = match *self {
            FileChecksum::NoChecksum => [0, 0],
            FileChecksum::Crc32 => [1, 0],
        };
        proof {
            assert(r@ =~= u16_le_bytes(file_checksum_code(*self)));
        }
        r
    }

    /// The number of checksum bytes appended to each block.
    pub fn checksum_byte_size(&self) -> (r: usize)
        ensures
            r == spec_file_checksum_size(*self),
    {
        match *self {
            FileChecksum::NoChecksum => 0,
            FileChecksum::Crc32 => 4,
        }
    }
}

/// Errors while reading a file header from its ten bytes.
#[derive(Debug, Clone, Copy, PartialEq, Eq, Structural)]
pub enum FileHeaderError {
    InvalidMagic,
    InvalidChecksum,
}

/// The file header of a binary G-code stream: magic number, format
/// version, and the checksum algorithm used by the blocks.
#[derive(Debug, Clone, Copy, PartialEq, Eq, Structural)]
pub struct FileHeader {
    pub magic: u32,
    pub version: u32,
    pub checksum: FileChecksum,
}

/// The ten bytes a file header serialises to.
pub open spec fn spec_file_header_bytes(h: FileHeader) -> Seq<u8> {
    u32_le_bytes(h.magic) + u32_le_bytes(h.version) + u16_le_bytes(file_checksum_code(h.checksum))
}

impl FileHeader {
    /// A header with the format magic and the given version and checksum.
    pub fn new(version: u32, checksum: FileChecksum) -> (r: Self)
        ensures
            r == (FileHeader { magic: MAGIC, version, checksum }),
    {
        Self { magic: MAGIC, version, checksum }
    }

    /// Reads a header from its ten bytes. Returns `InvalidMagic` exactly
    /// when the first four bytes differ from the magic, and
    /// `InvalidChecksum` exactly when the checksum field holds a code
    /// other than zero or one.
    pub fn from_bytes(bytes: &[u8; 10]) -> (r: Result<Self, FileHeaderError>)
        ensures
            ({
                let magic = u32_le(bytes@[0], bytes@[1], bytes@[2], bytes@[3]);
                let version = u32_le(bytes@[4], bytes@[5], bytes@[6], bytes@[7]);
                let code = u16_le(bytes@[8], bytes@[9]);
                if magic != MAGIC {
                    r == Err::<FileHeader, FileHeaderError>(FileHeaderError::InvalidMagic)
                } else if code == 0 {
                    r == Ok::<FileHeader, FileHeaderError>(
                        FileHeader { magic, version, checksum: FileChecksum::NoChecksum },
                    )
                } else if code == 1 {
                    r == Ok::<FileHeader, FileHeaderError>(
                        FileHeader { magic, version, checksum: FileChecksum::Crc32 },
                    )
                } else {
                    r == Err::<FileHeader, FileHeaderError>(FileHeaderError::InvalidChecksum)
                }
            }),
    {
        let magic = read_u32_le(bytes[0], bytes[1], bytes[2], bytes[3]);
        if magic != MAGIC {
            return Err(FileHeaderError::InvalidMagic);
        }
        let version = read_u32_le(bytes[4], bytes[5], bytes[6], bytes[7]);
        let checksum_value = read_u16_le(bytes[8], bytes[9]);
        let checksum: FileChecksum = match checksum_value {
            0 => FileChecksum::NoChecksum,
            1 => FileChecksum::Crc32,
            _ => {
                return Err(FileHeaderError::InvalidChecksum);
            },
        };
        Ok(Self { magic, version, checksum })
    }

    /// The ten bytes of this header, magic and version little-endian.
    pub fn to_bytes(&self) -> (r: [u8; 10])
        ensures
            r@ == spec_file_header_bytes(*self),
    {
        let m = self.magic;
        let v = self.version;
        let c = self.checksum.to_le_bytes();
        let r: [u8; 10] = [
            (m % 256) as u8,
            (m / 256 % 256) as u8,
            (m / 65536 % 256) as u8,
            (m / 16777216) as u8,
            (v % 256) as u8,
            (v / 256 % 256) as u8,
            (v / 65536 % 256) as u8,
            (v / 16777216) as u8,
            c[0],
            c[1],
        ];
        proof {
            assert(r@ =~= spec_file_header_bytes(*self));
        }
        r
    }
}

} // verus!
