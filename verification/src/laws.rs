//! Relations between the serialiser and the deserialiser, proved once at
//! the level of the byte-sequence specifications that both sides' function
//! contracts are stated over.

use vstd::prelude::*;

use crate::common::{
    crc32_of, u16_le_bytes, u32_le_bytes, lemma_u16_le_bytes_round_trip,
    lemma_u32_le_bytes_round_trip, spec_checksum_size, spec_parameter_size, block_kind_code,
    block_kind_from_code, compression_code, compression_from_code, encoding_code,
    encoding_from_code, checksum_code, BinaryGcodeError, BlockKind, Checksum,
    CompressionAlgorithm, Encoding, MAGIC,
};
use crate::deserialiser::{spec_parse_block, spec_parse_file_header, BlockModel, BlockParse, HeaderParse};
use crate::serialiser::{
    spec_serialised_block, spec_serialised_block_body, spec_serialised_file_header,
};

verus! {

/// A block kind's own code maps back to the kind.
pub proof fn lemma_kind_code_round_trip(k: BlockKind)
    ensures
        block_kind_from_code(block_kind_code(k)) == Some(k),
{
}

/// A compression algorithm's own code maps back to the algorithm.
pub proof fn lemma_compression_code_round_trip(c: CompressionAlgorithm)
    ensures
        compression_from_code(compression_code(c)) == Some(c),
{
}

/// A serialised file header, followed by anything, parses back to the
/// version and checksum it was made from.
pub proof fn lemma_serialised_header_parses(version: u32, checksum: Checksum, rest: Seq<u8>)
    ensures
        spec_parse_file_header(spec_serialised_file_header(version, checksum) + rest)
            matches HeaderParse::Complete { version: v, checksum: c } && v == version && c
            == checksum,
{
    let h = spec_serialised_file_header(version, checksum);
    let s = h + rest;
    lemma_u32_le_bytes_round_trip(MAGIC);
    lemma_u32_le_bytes_round_trip(version);
    lemma_u16_le_bytes_round_trip(checksum_code(checksum));
    assert(s[0] == u32_le_bytes(MAGIC)[0]);
    assert(s[1] == u32_le_bytes(MAGIC)[1]);
    assert(s[2] == u32_le_bytes(MAGIC)[2]);
    assert(s[3] == u32_le_bytes(MAGIC)[3]);
    assert(s[4] == u32_le_bytes(version)[0]);
    assert(s[5] == u32_le_bytes(version)[1]);
    assert(s[6] == u32_le_bytes(version)[2]);
    assert(s[7] == u32_le_bytes(version)[3]);
    assert(s[8] == u16_le_bytes(checksum_code(checksum))[0]);
    assert(s[9] == u16_le_bytes(checksum_code(checksum))[1]);
}

/// A serialised block, followed by anything, parses back to a complete
/// block that agrees with what it was made from: the same kind,
/// compression and encoding, the same uncompressed size, the stored
/// payload, and the parameter bytes with the encoding in front. The
/// encoding must be legal for the kind, the extra parameters must have
/// the kind's length, and with no compression the stored payload must
/// have the declared uncompressed size.
#[verifier::rlimit(100)]
pub proof fn lemma_serialised_block_parses(
    kind: BlockKind,
    compression: CompressionAlgorithm,
    encoding: Encoding,
    checksum: Checksum,
    extra: Seq<u8>,
    stored: Seq<u8>,
    unc_len: u32,
    rest: Seq<u8>,
)
    requires
        encoding_from_code(kind, encoding_code(encoding)) == Some(encoding),
        extra.len() == spec_parameter_size(kind) - 2,
        stored.len() <= u32::MAX,
        compression is NoCompression ==> stored.len() == unc_len,
        spec_serialised_block(kind, compression, encoding, checksum, extra, stored, unc_len).len()
            + rest.len() >= 12,
    ensures
        ({
            let b = spec_serialised_block(
                kind,
                compression,
                encoding,
                checksum,
                extra,
                stored,
                unc_len,
            );
            &&& spec_parse_block(b + rest, checksum) matches BlockParse::Complete {
                total,
                block,
            }
            &&& total == b.len()
            &&& block.kind == kind
            &&& block.compression == compression
            &&& block.encoding == encoding
            &&& block.uncompressed_len == unc_len
            &&& block.compressed_len == (if compression is NoCompression {
                Option::<int>::None
            } else {
                Some(stored.len() as int)
            })
            &&& block.parameters == u16_le_bytes(encoding_code(encoding)) + extra
            &&& block.data == stored
        }),
{
    let body = spec_serialised_block_body(kind, compression, encoding, extra, stored, unc_len);
    let b = spec_serialised_block(kind, compression, encoding, checksum, extra, stored, unc_len);
    let s = b + rest;
    let header_len: int = if compression is NoCompression {
        8
    } else {
        12
    };
    let param_len = spec_parameter_size(kind);
    let cs_len = spec_checksum_size(checksum);
    let stored_u32 = stored.len() as u32;
    lemma_kind_code_round_trip(kind);
    lemma_compression_code_round_trip(compression);
    lemma_u16_le_bytes_round_trip(block_kind_code(kind));
    lemma_u16_le_bytes_round_trip(compression_code(compression));
    lemma_u16_le_bytes_round_trip(encoding_code(encoding));
    lemma_u32_le_bytes_round_trip(unc_len);
    lemma_u32_le_bytes_round_trip(stored_u32);
    lemma_u32_le_bytes_round_trip(crc32_of(body));
    assert(body.len() == header_len + param_len + stored.len());
    let total = header_len + param_len + stored.len() + cs_len;
    assert(b.len() == total);
    assert(s[0] == u16_le_bytes(block_kind_code(kind))[0]);
    assert(s[1] == u16_le_bytes(block_kind_code(kind))[1]);
    assert(s[2] == u16_le_bytes(compression_code(compression))[0]);
    assert(s[3] == u16_le_bytes(compression_code(compression))[1]);
    assert(s[4] == u32_le_bytes(unc_len)[0]);
    assert(s[5] == u32_le_bytes(unc_len)[1]);
    assert(s[6] == u32_le_bytes(unc_len)[2]);
    assert(s[7] == u32_le_bytes(unc_len)[3]);
    if !(compression is NoCompression) {
        assert(s[8] == u32_le_bytes(stored_u32)[0]);
        assert(s[9] == u32_le_bytes(stored_u32)[1]);
        assert(s[10] == u32_le_bytes(stored_u32)[2]);
        assert(s[11] == u32_le_bytes(stored_u32)[3]);
    }
    assert(s[header_len] == u16_le_bytes(encoding_code(encoding))[0]);
    assert(s[header_len + 1] == u16_le_bytes(encoding_code(encoding))[1]);
    if checksum is Crc32 {
        assert(s.take(total - 4) =~= body);
        assert(s[total - 4] == u32_le_bytes(crc32_of(body))[0]);
        assert(s[total - 3] == u32_le_bytes(crc32_of(body))[1]);
        assert(s[total - 2] == u32_le_bytes(crc32_of(body))[2]);
        assert(s[total - 1] == u32_le_bytes(crc32_of(body))[3]);
    }
    assert(s.subrange(header_len, header_len + param_len) =~= u16_le_bytes(
        encoding_code(encoding),
    ) + extra);
    assert(s.subrange(header_len + param_len, total - cs_len) =~= stored);
    let blk = BlockModel {
        kind,
        compressed_len: if compression is NoCompression {
            Option::<int>::None
        } else {
            Some(stored.len() as int)
        },
        uncompressed_len: unc_len as int,
        compression,
        encoding,
        parameters: u16_le_bytes(encoding_code(encoding)) + extra,
        data: stored,
    };
    assert(spec_parse_block(s, checksum) =~~= (BlockParse::Complete { total, block: blk }));
}

/// Flipping any of the four stored checksum bytes of a well-formed
/// `Crc32` block makes the parse fail with `InvalidChecksum`: the
/// computed CRC covers only unchanged bytes, while the stored value can
/// no longer equal it.
#[verifier::rlimit(100)]
pub proof fn lemma_crc_byte_flip_detected(
    kind: BlockKind,
    compression: CompressionAlgorithm,
    encoding: Encoding,
    extra: Seq<u8>,
    stored: Seq<u8>,
    unc_len: u32,
    i: int,
    v: u8,
)
    requires
        encoding_from_code(kind, encoding_code(encoding)) == Some(encoding),
        extra.len() == spec_parameter_size(kind) - 2,
        stored.len() <= u32::MAX,
        compression is NoCompression ==> stored.len() == unc_len,
        ({
            let b = spec_serialised_block(
                kind,
                compression,
                encoding,
                Checksum::Crc32,
                extra,
                stored,
                unc_len,
            );
            b.len() - 4 <= i < b.len() && v != b[i]
        }),
    ensures
        ({
            let b = spec_serialised_block(
                kind,
                compression,
                encoding,
                Checksum::Crc32,
                extra,
                stored,
                unc_len,
            );
            spec_parse_block(b.update(i, v), Checksum::Crc32) matches BlockParse::Fail(
                BinaryGcodeError::InvalidChecksum(_, _),
            )
        }),
{
    let body = spec_serialised_block_body(kind, compression, encoding, extra, stored, unc_len);
    let b = spec_serialised_block(
        kind,
        compression,
        encoding,
        Checksum::Crc32,
        extra,
        stored,
        unc_len,
    );
    let s = b.update(i, v);
    let header_len: int = if compression is NoCompression {
        8
    } else {
        12
    };
    let param_len = spec_parameter_size(kind);
    let total = header_len + param_len + stored.len() + 4;
    let crc = crc32_of(body);
    let stored_u32 = stored.len() as u32;
    lemma_u16_le_bytes_round_trip(block_kind_code(kind));
    lemma_u16_le_bytes_round_trip(compression_code(compression));
    lemma_u32_le_bytes_round_trip(unc_len);
    lemma_u32_le_bytes_round_trip(stored_u32);
    lemma_u32_le_bytes_round_trip(crc);
    assert(body.len() == total - 4);
    assert(b.len() == total);
    assert(s.len() == total);
    assert(total - 4 >= 10);
    assert(s[0] == u16_le_bytes(block_kind_code(kind))[0]);
    assert(s[1] == u16_le_bytes(block_kind_code(kind))[1]);
    assert(s[2] == u16_le_bytes(compression_code(compression))[0]);
    assert(s[3] == u16_le_bytes(compression_code(compression))[1]);
    assert(s[4] == u32_le_bytes(unc_len)[0]);
    assert(s[5] == u32_le_bytes(unc_len)[1]);
    assert(s[6] == u32_le_bytes(unc_len)[2]);
    assert(s[7] == u32_le_bytes(unc_len)[3]);
    if !(compression is NoCompression) {
        assert(body.len() >= 14);
        assert(s[8] == u32_le_bytes(stored_u32)[0]);
        assert(s[9] == u32_le_bytes(stored_u32)[1]);
        assert(s[10] == u32_le_bytes(stored_u32)[2]);
        assert(s[11] == u32_le_bytes(stored_u32)[3]);
    }
    assert(s.take(total - 4) =~= body);
    // The four stored checksum bytes of the flipped frame: one of them
    // differs from the little-endian bytes of the body's CRC.
    let c0 = s[total - 4];
    let c1 = s[total - 3];
    let c2 = s[total - 2];
    let c3 = s[total - 1];
    assert(b[total - 4] == u32_le_bytes(crc)[0]);
    assert(b[total - 3] == u32_le_bytes(crc)[1]);
    assert(b[total - 2] == u32_le_bytes(crc)[2]);
    assert(b[total - 1] == u32_le_bytes(crc)[3]);
    let flipped = crate::common::u32_le(c0, c1, c2, c3);
    if flipped == crc {
        crate::common::lemma_u32_le_round_trip(c0, c1, c2, c3);
        assert(u32_le_bytes(flipped) =~= seq![c0, c1, c2, c3]);
        assert(false);
    }
    assert(flipped != crc);
}

} // verus!
