//! Shared pieces of the binary G-code format: the error type, the block
//! enums with their 16-bit little-endian codes, little-endian scalar
//! helpers, and the CRC-32 checksum used by the framing.

use vstd::prelude::*;

verus! {

/// The four ASCII bytes `"GCDE"` read as a little-endian `u32`.
pub const MAGIC: u32 = 1162101575;

/// Errors surfaced while encoding or decoding binary G-code.
#[derive(Debug, Clone, Copy, PartialEq, Eq, Structural)]
pub enum BinaryGcodeError {
    /// A slice was shorter than a fixed-size read expected.
    TryFromSliceError,
    /// The file header magic differed from `MAGIC`; carries the value read.
    InvalidMagic(u32),
    /// The file header checksum field held an unknown code.
    InvalidChecksumType(u16),
    /// A block checksum mismatch; carries the stored and the computed CRC.
    InvalidChecksum(u32, u32),
    /// A block header held an unknown block kind code.
    UnsupportedBlockKind(u16),
    /// A block header held an encoding code that is illegal for its kind.
    UnsupportedEncoding(u16),
    /// A block header held an unknown compression code.
    UnsupportedCompressionAlgorithm(u16),
    /// The external meatpack decoder reported a failure.
    MeatpackError,
    /// A zlib/deflate stream could not be decompressed.
    DeflateError,
    /// The heatshrink pump reported a protocol failure.
    HeatshrinkError,
    /// A decompressed payload did not have the promised length.
    DataLengthMissMatch,
    /// Text could not be converted to binary form.
    SerialiseError,
}

/// The checksum algorithms allowed by the file header.
#[derive(Debug, Clone, Copy, PartialEq, Eq, Structural)]
pub enum Checksum {
    NoChecksum,
    Crc32,
}

/// The 16-bit code a checksum variant is written as.
pub open spec fn checksum_code(c: Checksum) -> u16 {
    match c {
        Checksum::NoChecksum => 0,
        Checksum::Crc32 => 1,
    }
}

/// How many trailing checksum bytes each block carries.
pub open spec fn spec_checksum_size(c: Checksum) -> int {
    match c {
        Checksum::NoChecksum => 0,
        Checksum::Crc32 => 4,
    }
}

impl Checksum {
    /// The little-endian byte pair for this checksum variant.
    pub fn to_le_bytes(&self) -> (r: [u8; 2])
        ensures
            r@ == u16_le_bytes(checksum_code(*self)),
    {
        let r: [u8; 2] = match *self {
            Checksum::NoChecksum => [0, 0],
            Checksum::Crc32 => [1, 0],
        };
        proof {
            assert(r@ =~= u16_le_bytes(checksum_code(*self)));
        }
        r
    }

    /// The number of checksum bytes appended to each block.
    pub fn checksum_byte_size(&self) -> (r: usize)
        ensures
            r == spec_checksum_size(*self),
    {
        match *self {
            Checksum::NoChecksum => 0,
            Checksum::Crc32 => 4,
        }
    }
}

/// The kinds of block defined by the container format.
#[derive(Debug, Clone, Copy, PartialEq, Eq, Structural)]
pub enum BlockKind {
    FileMetadata,
    GCode,
    SlicerMetadata,
    PrinterMetadata,
    PrintMetadata,
    Thumbnail,
}

/// The 16-bit code a block kind is written as.
pub open spec fn block_kind_code(k: BlockKind) -> u16 {
    match k {
        BlockKind::FileMetadata => 0,
        BlockKind::GCode => 1,
        BlockKind::SlicerMetadata => 2,
        BlockKind::PrinterMetadata => 3,
        BlockKind::PrintMetadata => 4,
        BlockKind::Thumbnail => 5,
    }
}

/// The block kind a 16-bit code stands for, if any.
pub open spec fn block_kind_from_code(v: u16) -> Option<BlockKind> {
    if v == 0 {
        Some(BlockKind::FileMetadata)
    } else if v == 1 {
        Some(BlockKind::GCode)
    } else if v == 2 {
        Some(BlockKind::SlicerMetadata)
    } else if v == 3 {
        Some(BlockKind::PrinterMetadata)
    } else if v == 4 {
        Some(BlockKind::PrintMetadata)
    } else if v == 5 {
        Some(BlockKind::Thumbnail)
    } else {
        None
    }
}

/// How many parameter bytes (encoding included) a block of this kind has.
pub open spec fn spec_parameter_size(k: BlockKind) -> int {
    if k is Thumbnail {
        6
    } else {
        2
    }
}

impl BlockKind {
    /// The block kind a 16-bit value stands for, or the error naming it.
    pub fn new(value: u16) -> (r: Result<Self, BinaryGcodeError>)
        ensures
            r == match block_kind_from_code(value) {
                Some(k) => Ok::<BlockKind, BinaryGcodeError>(k),
                None => Err(BinaryGcodeError::UnsupportedBlockKind(value)),
            },
    {
        match value {
            0 => Ok(Self::FileMetadata),
            1 => Ok(Self::GCode),
            2 => Ok(Self::SlicerMetadata),
            3 => Ok(Self::PrinterMetadata),
            4 => Ok(Self::PrintMetadata),
            5 => Ok(Self::Thumbnail),
            v => Err(BinaryGcodeError::UnsupportedBlockKind(v)),
        }
    }

    /// The little-endian byte pair for this block kind.
    pub fn to_le_bytes(&self) -> (r: [u8; 2])
        ensures
            r@ == u16_le_bytes(block_kind_code(*self)),
    {
        let r: [u8; 2] = match *self {
            BlockKind::FileMetadata => [0, 0],
            BlockKind::GCode => [1, 0],
            BlockKind::SlicerMetadata => [2, 0],
            BlockKind::PrinterMetadata => [3, 0],
            BlockKind::PrintMetadata => [4, 0],
            BlockKind::Thumbnail => [5, 0],
        };
        proof {
            assert(r@ =~= u16_le_bytes(block_kind_code(*self)));
        }
        r
    }

    /// The block kind a little-endian byte pair stands for, or an error.
    pub fn from_le_bytes(bytes: [u8; 2]) -> (r: Result<Self, BinaryGcodeError>)
        ensures
            r == match block_kind_from_code(u16_le(bytes@[0], bytes@[1])) {
                Some(k) => Ok::<BlockKind, BinaryGcodeError>(k),
                None => Err(BinaryGcodeError::UnsupportedBlockKind(u16_le(bytes@[0], bytes@[1]))),
            },
    {
        let value = read_u16_le(bytes[0], bytes[1]);
        BlockKind::new(value)
    }

    /// The expected parameter byte length for this kind.
    pub fn parameter_byte_size(&self) -> (r: usize)
        ensures
            r == spec_parameter_size(*self),
    {
        match *self {
            BlockKind::Thumbnail => 6,
            _ => 2,
        }
    }
}

/// The payload encodings a block can declare.
#[derive(Debug, Clone, Copy, PartialEq, Eq, Structural)]
pub enum Encoding {
    Ini,
    Ascii,
    Meatpack,
    MeatpackWithComments,
    Png,
    Jpg,
    Qoi,
}

/// The 16-bit code an encoding is written as.
pub open spec fn encoding_code(e: Encoding) -> u16 {
    match e {
        Encoding::Ini => 0,
        Encoding::Ascii => 0,
        Encoding::Meatpack => 1,
        Encoding::MeatpackWithComments => 2,
        Encoding::Png => 0,
        Encoding::Jpg => 1,
        Encoding::Qoi => 2,
    }
}

/// The encoding a (kind, code) pair stands for, if the pair is legal.
pub open spec fn encoding_from_code(kind: BlockKind, code: u16) -> Option<Encoding> {
    match kind {
        BlockKind::FileMetadata => if code == 0 { Some(Encoding::Ini) } else { None },
        BlockKind::SlicerMetadata => if code == 0 { Some(Encoding::Ini) } else { None },
        BlockKind::PrintMetadata => if code == 0 { Some(Encoding::Ini) } else { None },
        BlockKind::PrinterMetadata => if code == 0 { Some(Encoding::Ini) } else { None },
        BlockKind::GCode => if code == 0 {
            Some(Encoding::Ascii)
        } else if code == 1 {
            Some(Encoding::Meatpack)
        } else if code == 2 {
            Some(Encoding::MeatpackWithComments)
        } else {
            None
        },
        BlockKind::Thumbnail => if code == 0 {
            Some(Encoding::Png)
        } else if code == 1 {
            Some(Encoding::Jpg)
        } else if code == 2 {
            Some(Encoding::Qoi)
        } else {
            None
        },
    }
}

impl Encoding {
    /// The little-endian byte pair for this encoding.
    pub fn to_le_bytes(&self) -> (r: [u8; 2])
        ensures
            r@ == u16_le_bytes(encoding_code(*self)),
    {
        let r: [u8; 2] = match *self {
            Encoding::Ini => [0, 0],
            Encoding::Ascii => [0, 0],
            Encoding::Meatpack => [1, 0],
            Encoding::MeatpackWithComments => [2, 0],
            Encoding::Png => [0, 0],
            Encoding::Jpg => [1, 0],
            Encoding::Qoi => [2, 0],
        };
        proof {
            assert(r@ =~= u16_le_bytes(encoding_code(*self)));
        }
        r
    }

    /// The encoding a byte pair stands for under the given block kind,
    /// or an error when the pair is illegal.
    pub fn from_le_bytes(bytes: [u8; 2], kind: &BlockKind) -> (r: Result<Encoding, BinaryGcodeError>)
        ensures
            r == match encoding_from_code(*kind, u16_le(bytes@[0], bytes@[1])) {
                Some(e) => Ok::<Encoding, BinaryGcodeError>(e),
                None => Err(BinaryGcodeError::UnsupportedEncoding(u16_le(bytes@[0], bytes@[1]))),
            },
    {
        let encoding = read_u16_le(bytes[0], bytes[1]);
        match (kind, encoding) {
            (BlockKind::FileMetadata, 0) => Ok(Encoding::Ini),
            (BlockKind::SlicerMetadata, 0) => Ok(Encoding::Ini),
            (BlockKind::PrintMetadata, 0) => Ok(Encoding::Ini),
            (BlockKind::PrinterMetadata, 0) => Ok(Encoding::Ini),
            (BlockKind::GCode, 0) => Ok(Encoding::Ascii),
            (BlockKind::GCode, 1) => Ok(Encoding::Meatpack),
            (BlockKind::GCode, 2) => Ok(Encoding::MeatpackWithComments),
            (BlockKind::Thumbnail, 0) => Ok(Encoding::Png),
            (BlockKind::Thumbnail, 1) => Ok(Encoding::Jpg),
            (BlockKind::Thumbnail, 2) => Ok(Encoding::Qoi),
            (_, _) => Err(BinaryGcodeError::UnsupportedEncoding(encoding)),
        }
    }
}

/// The compression algorithms a block can declare.
#[derive(Debug, Clone, Copy, PartialEq, Eq, Structural)]
pub enum CompressionAlgorithm {
    NoCompression,
    Deflate,
    Heatshrink11_4,
    Heatshrink12_4,
}

/// The 16-bit code a compression algorithm is written as.
pub open spec fn compression_code(c: CompressionAlgorithm) -> u16 {
    match c {
        CompressionAlgorithm::NoCompression => 0,
        CompressionAlgorithm::Deflate => 1,
        CompressionAlgorithm::Heatshrink11_4 => 2,
        CompressionAlgorithm::Heatshrink12_4 => 3,
    }
}

/// The compression algorithm a 16-bit code stands for, if any.
pub open spec fn compression_from_code(v: u16) -> Option<CompressionAlgorithm> {
    if v == 0 {
        Some(CompressionAlgorithm::NoCompression)
    } else if v == 1 {
        Some(CompressionAlgorithm::Deflate)
    } else if v == 2 {
        Some(CompressionAlgorithm::Heatshrink11_4)
    } else if v == 3 {
        Some(CompressionAlgorithm::Heatshrink12_4)
    } else {
        None
    }
}

impl CompressionAlgorithm {
    /// The compression algorithm a 16-bit value stands for, or an error.
    pub fn new(value: u16) -> (r: Result<Self, BinaryGcodeError>)
        ensures
            r == match compression_from_code(value) {
                Some(c) => Ok::<CompressionAlgorithm, BinaryGcodeError>(c),
                None => Err(BinaryGcodeError::UnsupportedCompressionAlgorithm(value)),
            },
    {
        match value {
            0 => Ok(Self::NoCompression),
            1 => Ok(Self::Deflate),
            2 => Ok(Self::Heatshrink11_4),
            3 => Ok(Self::Heatshrink12_4),
            v => Err(BinaryGcodeError::UnsupportedCompressionAlgorithm(v)),
        }
    }

    /// The little-endian byte pair for this compression algorithm.
    pub fn to_le_bytes(&self) -> (r: [u8; 2])
        ensures
            r@ == u16_le_bytes(compression_code(*self)),
    {
        let r: [u8; 2] = match *self {
            CompressionAlgorithm::NoCompression => [0, 0],
            CompressionAlgorithm::Deflate => [1, 0],
            CompressionAlgorithm::Heatshrink11_4 => [2, 0],
            CompressionAlgorithm::Heatshrink12_4 => [3, 0],
        };
        proof {
            assert(r@ =~= u16_le_bytes(compression_code(*self)));
        }
        r
    }

    /// The compression algorithm a little-endian byte pair stands for.
    pub fn from_le_bytes(bytes: [u8; 2]) -> (r: Result<Self, BinaryGcodeError>)
        ensures
            r == match compression_from_code(u16_le(bytes@[0], bytes@[1])) {
                Some(c) => Ok::<CompressionAlgorithm, BinaryGcodeError>(c),
                None => Err(
                    BinaryGcodeError::UnsupportedCompressionAlgorithm(u16_le(bytes@[0], bytes@[1])),
                ),
            },
    {
        let value = read_u16_le(bytes[0], bytes[1]);
        CompressionAlgorithm::new(value)
    }
}

// --- little-endian scalars ---

/// The `u16` two little-endian bytes stand for.
pub open spec fn u16_le(b0: u8, b1: u8) -> u16 {
    (b0 + b1 * 256) as u16
}

/// The `u32` four little-endian bytes stand for.
pub open spec fn u32_le(b0: u8, b1: u8, b2: u8, b3: u8) -> u32 {
    (b0 + b1 * 256 + b2 * 65536 + b3 * 16777216) as u32
}

/// The two little-endian bytes of a `u16`.
pub open spec fn u16_le_bytes(v: u16) -> Seq<u8> {
    seq![((v as int) % 256) as u8, ((v as int) / 256) as u8]
}

/// The four little-endian bytes of a `u32`.
pub open spec fn u32_le_bytes(v: u32) -> Seq<u8> {
    seq![
        ((v as int) % 256) as u8,
        (((v as int) / 256) % 256) as u8,
        (((v as int) / 65536) % 256) as u8,
        ((v as int) / 16777216) as u8,
    ]
}

/// Reading back the two little-endian bytes of a `u16` gives the value.
pub proof fn lemma_u16_le_bytes_round_trip(v: u16)
    ensures
        u16_le(u16_le_bytes(v)[0], u16_le_bytes(v)[1]) == v,
{
    assert((v as int) % 256 + 256 * ((v as int) / 256) == v as int) by (nonlinear_arith);
}

/// Reading back the four little-endian bytes of a `u32` gives the value.
pub proof fn lemma_u32_le_bytes_round_trip(v: u32)
    ensures
        u32_le(u32_le_bytes(v)[0], u32_le_bytes(v)[1], u32_le_bytes(v)[2], u32_le_bytes(v)[3])
            == v,
{
    let n = v as int;
    assert(n % 256 + (n / 256 % 256) * 256 + (n / 65536 % 256) * 65536 + (n / 16777216)
        * 16777216 == n) by (nonlinear_arith)
        requires 0 <= n < 4294967296;
}

/// Writing back the `u32` four bytes stand for gives the same bytes.
pub proof fn lemma_u32_le_round_trip(b0: u8, b1: u8, b2: u8, b3: u8)
    ensures
        u32_le_bytes(u32_le(b0, b1, b2, b3)) =~= seq![b0, b1, b2, b3],
{
    let n = b0 + b1 * 256 + b2 * 65536 + b3 * 16777216;
    let m = b1 + b2 * 256 + b3 * 65536;
    assert(n == b0 + 256 * m && n % 256 == b0 as int && n / 256 == m) by (nonlinear_arith)
        requires
            b0 < 256 && b1 < 256 && b2 < 256 && b3 < 256
                && n == b0 + b1 * 256 + b2 * 65536 + b3 * 16777216
                && m == b1 + b2 * 256 + b3 * 65536,
    ;
    let q = b2 + b3 * 256;
    assert(m == b1 + 256 * q && m % 256 == b1 as int && m / 256 == q) by (nonlinear_arith)
        requires
            b1 < 256 && b2 < 256 && b3 < 256 && m == b1 + b2 * 256 + b3 * 65536 && q == b2 + b3
                * 256,
    ;
    assert(q % 256 == b2 as int && q / 256 == b3 as int) by (nonlinear_arith)
        requires
            b2 < 256 && b3 < 256 && q == b2 + b3 * 256,
    ;
    assert(n / 65536 == q && n / 16777216 == b3 as int) by (nonlinear_arith)
        requires
            b0 < 256 && b1 < 256 && b2 < 256 && b3 < 256
                && n == b0 + b1 * 256 + b2 * 65536 + b3 * 16777216 && q == b2 + b3 * 256,
    ;
}

/// The `u16` value of two little-endian bytes.
pub fn read_u16_le(b0: u8, b1: u8) -> (r: u16)
    ensures
        r == u16_le(b0, b1),
{
    b0 as u16 + b1 as u16 * 256
}

/// The `u32` value of four little-endian bytes.
pub fn read_u32_le(b0: u8, b1: u8, b2: u8, b3: u8) -> (r: u32)
    ensures
        r == u32_le(b0, b1, b2, b3),
{
    b0 as u32 + b1 as u32 * 256 + b2 as u32 * 65536 + b3 as u32 * 16777216
}

/// Append the two little-endian bytes of a `u16`.
pub fn push_u16_le(out: &mut Vec<u8>, v: u16)
    ensures
        final(out)@ == old(out)@ + u16_le_bytes(v),
{
    out.push((v % 256) as u8);
    out.push((v / 256) as u8);
    proof {
        assert(final(out)@ =~= old(out)@ + u16_le_bytes(v));
    }
}

/// Append the four little-endian bytes of a `u32`.
pub fn push_u32_le(out: &mut Vec<u8>, v: u32)
    ensures
        final(out)@ == old(out)@ + u32_le_bytes(v),
{
    out.push((v % 256) as u8);
    out.push((v / 256 % 256) as u8);
    out.push((v / 65536 % 256) as u8);
    out.push((v / 16777216) as u8);
    proof {
        assert(final(out)@ =~= old(out)@ + u32_le_bytes(v));
    }
}

// --- CRC-32 ---

/// One reflected polynomial step applied `k` times to `r`.
pub open spec fn crc_shift(r: u32, k: nat) -> u32
    decreases k,
{
    if k == 0 {
        r
    } else {
        let p = crc_shift(r, (k - 1) as nat);
        if p & 1 == 1 {
            0xEDB88320u32 ^ (p >> 1)
        } else {
            p >> 1
        }
    }
}

/// The reflected CRC-32 table entry for one byte.
pub open spec fn crc_table_entry(i: u8) -> u32 {
    crc_shift(i as u32, 8)
}

/// One byte folded into a running CRC-32.
pub open spec fn crc_step(crc: u32, b: u8) -> u32 {
    crc_table_entry(((crc & 0xff) as u8) ^ b) ^ (crc >> 8)
}

/// A byte sequence folded into a running CRC-32, front first.
pub open spec fn crc32_accum(s: Seq<u8>, crc: u32) -> u32
    decreases s.len(),
{
    if s.len() == 0 {
        crc
    } else {
        crc32_accum(s.drop_first(), crc_step(crc, s[0]))
    }
}

/// The reflected CRC-32/ISO-HDLC of a byte sequence.
pub open spec fn crc32_of(s: Seq<u8>) -> u32 {
    crc32_accum(s, 0xFFFFFFFFu32) ^ 0xFFFFFFFFu32
}

/// Folding one more byte at the end folds it into the accumulated CRC.
pub proof fn lemma_crc32_accum_push(s: Seq<u8>, b: u8, crc: u32)
    ensures
        crc32_accum(s.push(b), crc) == crc_step(crc32_accum(s, crc), b),
    decreases s.len(),
{
    if s.len() == 0 {
        assert(s.push(b)[0] == b);
        assert(s.push(b).drop_first() =~= Seq::<u8>::empty());
        assert(crc32_accum(s.push(b), crc) == crc32_accum(Seq::<u8>::empty(), crc_step(crc, b)));
        assert(crc32_accum(Seq::<u8>::empty(), crc_step(crc, b)) == crc_step(crc, b));
        assert(crc32_accum(s, crc) == crc);
    } else {
        assert(s.push(b)[0] == s[0]);
        assert(s.push(b).drop_first() =~= s.drop_first().push(b));
        lemma_crc32_accum_push(s.drop_first(), b, crc_step(crc, s[0]));
    }
}

/// The table entry for one byte, computed bit by bit.
fn crc_entry(i: u8) -> (r: u32)
    ensures
        r == crc_table_entry(i),
{
    let mut r: u32 = i as u32;
    let mut k: usize = 0;
    while k < 8
        invariant
            k <= 8,
            r == crc_shift(i as u32, k as nat),
        decreases 8 - k,
    {
        if r & 1 == 1 {
            r = 0xEDB88320 ^ (r >> 1);
        } else {
            r = r >> 1;
        }
        k = k + 1;
    }
    r
}

/// The reflected CRC-32/ISO-HDLC of a byte slice.
pub fn crc32(buf: &[u8]) -> (r: u32)
    ensures
        r == crc32_of(buf@),
{
    let mut crc: u32 = 0xFFFFFFFF;
    let mut i: usize = 0;
    while i < buf.len()
        invariant
            i <= buf.len(),
            crc == crc32_accum(buf@.take(i as int), 0xFFFFFFFFu32),
        decreases buf.len() - i,
    {
        let b = buf[i];
        proof {
            assert((crc & 0xff) < 256) by (bit_vector);
            lemma_crc32_accum_push(buf@.take(i as int), b, 0xFFFFFFFFu32);
            assert(buf@.take(i as int + 1) =~= buf@.take(i as int).push(buf@[i as int]));
        }
        let idx: u8 = ((crc & 0xff) as u8) ^ b;
        let entry = crc_entry(idx);
        crc = entry ^ (crc >> 8);
        i = i + 1;
    }
    proof {
        assert(buf@.take(buf@.len() as int) =~= buf@);
    }
    crc ^ 0xFFFFFFFF
}

} // verus!
