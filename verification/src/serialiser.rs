//! The block serialiser: emits the ten-byte file header and single framed
//! blocks, compressing the payload and appending the CRC-32 as the file
//! header's checksum setting demands. What each function writes is stated
//! byte for byte by spec functions.

use vstd::prelude::*;

use crate::common::{
    crc32, crc32_of, u16_le_bytes, u32_le_bytes, push_u32_le, block_kind_code, compression_code,
    encoding_code, encoding_from_code, checksum_code, BinaryGcodeError, BlockKind, Checksum,
    CompressionAlgorithm, Encoding, MAGIC,
};
use crate::compression::{compress_bytes, deflate_of, shrink_of, unshrink_of};

verus! {

/// The ten bytes `serialise_file_header` writes.
pub open spec fn spec_serialised_file_header(version: u32, checksum: Checksum) -> Seq<u8> {
    u32_le_bytes(MAGIC) + u32_le_bytes(version) + u16_le_bytes(checksum_code(checksum))
}

/// A serialised block before its checksum: kind, compression and
/// uncompressed size, the stored size when compressed, the encoding, the
/// extra parameters, and the stored payload.
pub open spec fn spec_serialised_block_body(
    kind: BlockKind,
    compression: CompressionAlgorithm,
    encoding: Encoding,
    extra: Seq<u8>,
    stored: Seq<u8>,
    unc_len: u32,
) -> Seq<u8> {
    u16_le_bytes(block_kind_code(kind)) + u16_le_bytes(compression_code(compression))
        + u32_le_bytes(unc_len) + (if compression is NoCompression {
        Seq::<u8>::empty()
    } else {
        u32_le_bytes(stored.len() as u32)
    }) + u16_le_bytes(encoding_code(encoding)) + extra + stored
}

/// A serialised block: its body, then, under `Crc32`, the little-endian
/// CRC-32 of every body byte.
pub open spec fn spec_serialised_block(
    kind: BlockKind,
    compression: CompressionAlgorithm,
    encoding: Encoding,
    checksum: Checksum,
    extra: Seq<u8>,
    stored: Seq<u8>,
    unc_len: u32,
) -> Seq<u8> {
    let body = spec_serialised_block_body(kind, compression, encoding, extra, stored, unc_len);
    body + (if checksum is Crc32 {
        u32_le_bytes(crc32_of(body))
    } else {
        Seq::<u8>::empty()
    })
}

/// Appends a two-byte pair.
fn push_pair(out: &mut Vec<u8>, pair: [u8; 2])
    ensures
        final(out)@ == old(out)@ + pair@,
{
    out.push(pair[0]);
    out.push(pair[1]);
    proof {
        assert(final(out)@ =~= old(out)@ + pair@);
    }
}

/// Serialises the ten-byte file header: magic, version, checksum code,
/// all little-endian.
pub fn serialise_file_header(version: u32, checksum: Checksum) -> (r: Vec<u8>)
    ensures
        r@ == spec_serialised_file_header(version, checksum),
{
    let mut h: Vec<u8> = Vec::new();
    push_u32_le(&mut h, MAGIC);
    push_u32_le(&mut h, version);
    push_pair(&mut h, checksum.to_le_bytes());
    proof {
        assert(h@ =~= spec_serialised_file_header(version, checksum));
    }
    h
}

/// Serialises one block: header fields, encoding and extra parameters,
/// the payload as stored (compressed when the compression demands it),
/// and the CRC-32 when the checksum demands it. A compressed payload
/// whose stored form cannot be sized by a `u32` is refused, as is a
/// heatshrink pump failure.
pub fn serialise_block(
    kind: BlockKind,
    compression: CompressionAlgorithm,
    encoding: Encoding,
    checksum: Checksum,
    additional_parameters: &[u8],
    data: &[u8],
) -> (r: Result<Vec<u8>, BinaryGcodeError>)
    requires
        data@.len() <= u32::MAX,
    ensures
        compression is NoCompression ==> (r matches Ok(out) && out@ == spec_serialised_block(
            kind,
            compression,
            encoding,
            checksum,
            additional_parameters@,
            data@,
            data@.len() as u32,
        )),
        compression is Deflate ==> if deflate_of(data@, 10).len() <= u32::MAX {
            r matches Ok(out) && out@ == spec_serialised_block(
                kind,
                compression,
                encoding,
                checksum,
                additional_parameters@,
                deflate_of(data@, 10),
                data@.len() as u32,
            )
        } else {
            r == Err::<Vec<u8>, BinaryGcodeError>(BinaryGcodeError::SerialiseError)
        },
        compression is Heatshrink11_4 ==> (r matches Ok(out) ==> out@ == spec_serialised_block(
            kind,
            compression,
            encoding,
            checksum,
            additional_parameters@,
            shrink_of(data@, 11, 4),
            data@.len() as u32,
        ) && unshrink_of(shrink_of(data@, 11, 4), 11, 4) == data@ && shrink_of(
            data@,
            11,
            4,
        ).len() <= u32::MAX),
        compression is Heatshrink12_4 ==> (r matches Ok(out) ==> out@ == spec_serialised_block(
            kind,
            compression,
            encoding,
            checksum,
            additional_parameters@,
            shrink_of(data@, 12, 4),
            data@.len() as u32,
        ) && unshrink_of(shrink_of(data@, 12, 4), 12, 4) == data@ && shrink_of(
            data@,
            12,
            4,
        ).len() <= u32::MAX),
{
    let stored: Vec<u8> = match compress_bytes(data, compression) {
        Ok(c) => c,
        Err(e) => {
            return Err(e);
        },
    };
    let mut block: Vec<u8> = Vec::new();
    push_pair(&mut block, kind.to_le_bytes());
    push_pair(&mut block, compression.to_le_bytes());
    push_u32_le(&mut block, data.len() as u32);
    match compression {
        CompressionAlgorithm::NoCompression => {},
        _ => {
            if stored.len() > u32::MAX as usize {
                return Err(BinaryGcodeError::SerialiseError);
            }
            push_u32_le(&mut block, stored.len() as u32);
        },
    }
    push_pair(&mut block, encoding.to_le_bytes());
    block.extend_from_slice(additional_parameters);
    proof {
        assert(block@ =~= u16_le_bytes(block_kind_code(kind)) + u16_le_bytes(
            compression_code(compression),
        ) + u32_le_bytes(data@.len() as u32) + (if compression is NoCompression {
            Seq::<u8>::empty()
        } else {
            u32_le_bytes(stored@.len() as u32)
        }) + u16_le_bytes(encoding_code(encoding)) + additional_parameters@);
    }
    block.extend_from_slice(stored.as_slice());
    proof {
        assert(block@ =~= spec_serialised_block_body(
            kind,
            compression,
            encoding,
            additional_parameters@,
            stored@,
            data@.len() as u32,
        ));
    }
    match checksum {
        Checksum::Crc32 => {
            let crc = crc32(block.as_slice());
            push_u32_le(&mut block, crc);
        },
        Checksum::NoChecksum => {},
    }
    proof {
        assert(block@ =~= spec_serialised_block(
            kind,
            compression,
            encoding,
            checksum,
            additional_parameters@,
            stored@,
            data@.len() as u32,
        ));
    }
    Ok(block)
}


/// A reusable block serialiser: the kind, compression, checksum and
/// encoding every block it emits is framed with.
#[derive(Debug, Clone, Copy, PartialEq, Eq, Structural)]
pub struct BlockSerialiser {
    pub kind: BlockKind,
    pub compression: CompressionAlgorithm,
    pub checksum: Checksum,
    pub encoding: Encoding,
}

/// Whether a serialiser's encoding is legal for its block kind.
pub open spec fn spec_valid_config(s: BlockSerialiser) -> bool {
    encoding_from_code(s.kind, encoding_code(s.encoding)) == Some(s.encoding)
}

impl BlockSerialiser {
    /// A serialiser for the given framing; an encoding that is illegal
    /// for the kind is refused.
    pub fn new(
        kind: BlockKind,
        compression: CompressionAlgorithm,
        checksum: Checksum,
        encoding: Encoding,
    ) -> (r: Result<Self, BinaryGcodeError>)
        ensures
            if encoding_from_code(kind, encoding_code(encoding)) == Some(encoding) {
                r matches Ok(s) && s.kind == kind && s.compression == compression && s.checksum
                    == checksum && s.encoding == encoding
            } else {
                r == Err::<BlockSerialiser, BinaryGcodeError>(
                    BinaryGcodeError::UnsupportedEncoding(encoding_code(encoding)),
                )
            },
    {
        let s = Self { kind, compression, checksum, encoding };
        match s.validate_config() {
            Ok(_) => Ok(s),
            Err(e) => Err(e),
        }
    }

    /// Accepts exactly the legal (kind, encoding) pairs.
    fn validate_config(&self) -> (r: Result<(), BinaryGcodeError>)
        ensures
            spec_valid_config(*self) ==> r is Ok,
            !spec_valid_config(*self) ==> r == Err::<(), BinaryGcodeError>(
                BinaryGcodeError::UnsupportedEncoding(encoding_code(self.encoding)),
            ),
    {
        let legal = match (self.kind, self.encoding) {
            (BlockKind::FileMetadata, Encoding::Ini) => true,
            (BlockKind::SlicerMetadata, Encoding::Ini) => true,
            (BlockKind::PrintMetadata, Encoding::Ini) => true,
            (BlockKind::PrinterMetadata, Encoding::Ini) => true,
            (BlockKind::GCode, Encoding::Ascii) => true,
            (BlockKind::GCode, Encoding::Meatpack) => true,
            (BlockKind::GCode, Encoding::MeatpackWithComments) => true,
            (BlockKind::Thumbnail, Encoding::Png) => true,
            (BlockKind::Thumbnail, Encoding::Jpg) => true,
            (BlockKind::Thumbnail, Encoding::Qoi) => true,
            (_, _) => false,
        };
        if legal {
            Ok(())
        } else {
            let code = self.encoding.to_le_bytes();
            Err(BinaryGcodeError::UnsupportedEncoding(crate::common::read_u16_le(code[0], code[1])))
        }
    }

    /// Serialises one block under this configuration, with no extra
    /// parameter bytes beyond the encoding.
    pub fn serialise(&self, input: &[u8]) -> (r: Result<Vec<u8>, BinaryGcodeError>)
        requires
            input@.len() <= u32::MAX,
        ensures
            self.compression is NoCompression ==> (r matches Ok(out) && out@
                == spec_serialised_block(
                self.kind,
                self.compression,
                self.encoding,
                self.checksum,
                Seq::<u8>::empty(),
                input@,
                input@.len() as u32,
            )),
            self.compression is Deflate ==> if deflate_of(input@, 10).len() <= u32::MAX {
                r matches Ok(out) && out@ == spec_serialised_block(
                    self.kind,
                    self.compression,
                    self.encoding,
                    self.checksum,
                    Seq::<u8>::empty(),
                    deflate_of(input@, 10),
                    input@.len() as u32,
                )
            } else {
                r == Err::<Vec<u8>, BinaryGcodeError>(BinaryGcodeError::SerialiseError)
            },
            self.compression is Heatshrink11_4 ==> (r matches Ok(out) ==> out@
                == spec_serialised_block(
                self.kind,
                self.compression,
                self.encoding,
                self.checksum,
                Seq::<u8>::empty(),
                shrink_of(input@, 11, 4),
                input@.len() as u32,
            ) && unshrink_of(shrink_of(input@, 11, 4), 11, 4) == input@ && shrink_of(
                input@,
                11,
                4,
            ).len() <= u32::MAX),
            self.compression is Heatshrink12_4 ==> (r matches Ok(out) ==> out@
                == spec_serialised_block(
                self.kind,
                self.compression,
                self.encoding,
                self.checksum,
                Seq::<u8>::empty(),
                shrink_of(input@, 12, 4),
                input@.len() as u32,
            ) && unshrink_of(shrink_of(input@, 12, 4), 12, 4) == input@ && shrink_of(
                input@,
                12,
                4,
            ).len() <= u32::MAX),
    {
        let nop: Vec<u8> = Vec::new();
        serialise_block(
            self.kind,
            self.compression,
            self.encoding,
            self.checksum,
            nop.as_slice(),
            input,
        )
    }
}

} // verus!
