//! The streaming deserialiser: a byte-fed state machine that validates the
//! file header, parses variable-shape block headers, enforces the per-block
//! CRC-32, and emits owned blocks. The parse protocol is stated once, as
//! spec functions over the pending byte sequence, and the executable state
//! machine is proved to follow it.

use vstd::prelude::*;

use crate::common::{
    crc32, crc32_of, u16_le, u32_le, read_u16_le, read_u32_le, spec_checksum_size,
    spec_parameter_size, block_kind_from_code, compression_from_code, encoding_from_code,
    BinaryGcodeError, BlockKind, Checksum, CompressionAlgorithm, Encoding, MAGIC,
};
use crate::compression::{decompress_bytes, inflate_of, unshrink_of};

verus! {

/// Copies the bytes `src[start..end]` into a fresh vector.
pub fn copy_range(src: &Vec<u8>, start: usize, end: usize) -> (r: Vec<u8>)
    requires
        start <= end <= src.len(),
    ensures
        r@ == src@.subrange(start as int, end as int),
{
    let mut r: Vec<u8> = Vec::new();
    let mut i: usize = start;
    while i < end
        invariant
            start <= i <= end <= src.len(),
            r@ == src@.subrange(start as int, i as int),
        decreases end - i,
    {
        r.push(src[i]);
        proof {
            assert(src@.subrange(start as int, i + 1 as int) =~= src@.subrange(
                start as int,
                i as int,
            ).push(src@[i as int]));
        }
        i = i + 1;
    }
    r
}

/// Which frame the deserialiser expects next.
#[derive(Debug, Clone, Copy, PartialEq, Eq, Structural)]
pub enum DeserialiserState {
    FileHeader,
    Block,
}

/// The header details read from the front of a stream.
#[derive(Debug, Clone, Copy, PartialEq, Eq, Structural)]
pub struct DeserialisedFileHeader {
    pub magic: u32,
    pub version: u32,
    pub checksum: Checksum,
}

/// A deserialised block with owned parameter and payload bytes. The
/// payload is kept as stored in the stream: still compressed when the
/// block was compressed.
#[derive(Debug, Clone)]
pub struct DeserialisedBlock {
    pub kind: BlockKind,
    pub data_compressed_len: Option<usize>,
    pub data_uncompressed_len: usize,
    pub compression: CompressionAlgorithm,
    pub encoding: Encoding,
    pub parameters: Vec<u8>,
    pub data: Vec<u8>,
}

/// The mathematical content of a deserialised block.
#[verifier::ext_equal]
pub struct BlockModel {
    pub kind: BlockKind,
    pub compressed_len: Option<int>,
    pub uncompressed_len: int,
    pub compression: CompressionAlgorithm,
    pub encoding: Encoding,
    pub parameters: Seq<u8>,
    pub data: Seq<u8>,
}

impl DeserialisedBlock {
    /// The mathematical content of this block.
    pub open spec fn model(self) -> BlockModel {
        BlockModel {
            kind: self.kind,
            compressed_len: match self.data_compressed_len {
                Some(n) => Some(n as int),
                None => None,
            },
            uncompressed_len: self.data_uncompressed_len as int,
            compression: self.compression,
            encoding: self.encoding,
            parameters: self.parameters@,
            data: self.data@,
        }
    }
}

/// The possible outputs of one `deserialise` call.
#[derive(Debug)]
pub enum DeserialisedResult {
    FileHeader(DeserialisedFileHeader),
    MoreBytesRequired(usize),
    Block(DeserialisedBlock),
}

/// What the pending bytes hold when a file header is expected.
#[verifier::ext_equal]
pub enum HeaderParse {
    NeedMore(int),
    Fail(BinaryGcodeError),
    Complete { version: u32, checksum: Checksum },
}

/// What the pending bytes hold when a block is expected.
#[verifier::ext_equal]
pub enum BlockParse {
    NeedMore(int),
    Fail(BinaryGcodeError),
    Complete { total: int, block: BlockModel },
}

/// The file-header parse protocol: ten bytes are required; the magic must
/// match; the checksum code must be zero or one.
pub open spec fn spec_parse_file_header(s: Seq<u8>) -> HeaderParse {
    if s.len() < 10 {
        HeaderParse::NeedMore(10 - s.len())
    } else {
        let magic = u32_le(s[0], s[1], s[2], s[3]);
        if magic != MAGIC {
            HeaderParse::Fail(BinaryGcodeError::InvalidMagic(magic))
        } else {
            let code = u16_le(s[8], s[9]);
            if code == 0 {
                HeaderParse::Complete {
                    version: u32_le(s[4], s[5], s[6], s[7]),
                    checksum: Checksum::NoChecksum,
                }
            } else if code == 1 {
                HeaderParse::Complete {
                    version: u32_le(s[4], s[5], s[6], s[7]),
                    checksum: Checksum::Crc32,
                }
            } else {
                HeaderParse::Fail(BinaryGcodeError::InvalidChecksumType(code))
            }
        }
    }
}

/// The block parse protocol. Twelve bytes are probed first; the kind and
/// compression codes must be known; once the whole frame is present the
/// CRC-32 (when enabled) must match over every byte before it; the
/// encoding must be legal for the kind. The emitted block owns its
/// parameter bytes (encoding included) and its stored payload.
pub open spec fn spec_parse_block(s: Seq<u8>, cs: Checksum) -> BlockParse {
    if s.len() < 12 {
        BlockParse::NeedMore(12 - s.len())
    } else {
        let kind_code = u16_le(s[0], s[1]);
        match block_kind_from_code(kind_code) {
            None => BlockParse::Fail(BinaryGcodeError::UnsupportedBlockKind(kind_code)),
            Some(kind) => {
                let comp_code = u16_le(s[2], s[3]);
                match compression_from_code(comp_code) {
                    None => BlockParse::Fail(
                        BinaryGcodeError::UnsupportedCompressionAlgorithm(comp_code),
                    ),
                    Some(compression) => {
                        let unc_len = u32_le(s[4], s[5], s[6], s[7]) as int;
                        let header_len: int = if compression is NoCompression {
                            8
                        } else {
                            12
                        };
                        let payload_len: int = if compression is NoCompression {
                            unc_len
                        } else {
                            u32_le(s[8], s[9], s[10], s[11]) as int
                        };
                        let param_len = spec_parameter_size(kind);
                        let cs_len = spec_checksum_size(cs);
                        let total = header_len + param_len + payload_len + cs_len;
                        if s.len() < total {
                            BlockParse::NeedMore(total - s.len())
                        } else {
                            let stored = u32_le(s[total - 4], s[total - 3], s[total - 2], s[total - 1]);
                            let computed = crc32_of(s.take(total - 4));
                            if cs is Crc32 && stored != computed {
                                BlockParse::Fail(BinaryGcodeError::InvalidChecksum(stored, computed))
                            } else {
                                let enc_code = u16_le(s[header_len], s[header_len + 1]);
                                match encoding_from_code(kind, enc_code) {
                                    None => BlockParse::Fail(
                                        BinaryGcodeError::UnsupportedEncoding(enc_code),
                                    ),
                                    Some(encoding) => BlockParse::Complete {
                                        total,
                                        block: BlockModel {
                                            kind,
                                            compressed_len: if compression is NoCompression {
                                                None
                                            } else {
                                                Some(payload_len)
                                            },
                                            uncompressed_len: unc_len,
                                            compression,
                                            encoding,
                                            parameters: s.subrange(
                                                header_len,
                                                header_len + param_len,
                                            ),
                                            data: s.subrange(
                                                header_len + param_len,
                                                total - cs_len,
                                            ),
                                        },
                                    },
                                }
                            }
                        }
                    },
                }
            },
        }
    }
}

/// A complete block parse consumes at least the ten bytes of the
/// smallest frame, never more than the pending bytes, and hands out
/// parameter bytes of the kind's length and a payload of the declared
/// stored length.
pub proof fn lemma_parse_block_bounds(s: Seq<u8>, cs: Checksum)
    ensures
        spec_parse_block(s, cs) matches BlockParse::Complete { total, block } ==> 10 <= total
            <= s.len() && block.parameters.len() == spec_parameter_size(block.kind),
{
}

/// A byte count clamped to what a `usize` can report.
pub open spec fn clamp_to_usize(n: int) -> int {
    if n > usize::MAX {
        usize::MAX as int
    } else {
        n
    }
}

/// The abstract state of a deserialiser.
#[verifier::ext_equal]
pub struct DeserView {
    pub pending: Seq<u8>,
    pub state: DeserialiserState,
    pub checksum: Checksum,
}

/// The abstract state after more bytes are fed.
pub open spec fn spec_digest(v: DeserView, bytes: Seq<u8>) -> DeserView {
    DeserView { pending: v.pending + bytes, state: v.state, checksum: v.checksum }
}

/// Feeding two chunks one after the other leaves the deserialiser in the
/// same abstract state as feeding their concatenation at once; the result
/// of every later `deserialise` call is a function of that state alone.
pub proof fn lemma_digest_chunk_independence(v: DeserView, s1: Seq<u8>, s2: Seq<u8>)
    ensures
        spec_digest(spec_digest(v, s1), s2) == spec_digest(v, s1 + s2),
{
    assert((v.pending + s1) + s2 =~= v.pending + (s1 + s2));
    assert(spec_digest(spec_digest(v, s1), s2) =~= spec_digest(v, s1 + s2));
}

/// A streaming binary G-code deserialiser. Bytes are fed with `digest`;
/// `deserialise` consumes the next complete frame from the front of the
/// pending buffer, or reports how many more bytes are needed.
pub struct Deserialiser {
    pub inner: Vec<u8>,
    pub state: DeserialiserState,
    pub checksum: Checksum,
}

impl View for Deserialiser {
    type V = DeserView;

    open spec fn view(&self) -> DeserView {
        DeserView { pending: self.inner@, state: self.state, checksum: self.checksum }
    }
}

impl Default for Deserialiser {
    /// An empty deserialiser that expects a file header.
    fn default() -> (d: Self)
        ensures
            d@.pending == Seq::<u8>::empty(),
            d@.state is FileHeader,
            d@.checksum is NoChecksum,
    {
        Self {
            inner: Vec::new(),
            state: DeserialiserState::FileHeader,
            checksum: Checksum::NoChecksum,
        }
    }
}

impl Deserialiser {
    /// Appends bytes to the pending buffer. Never fails and consumes
    /// nothing.
    pub fn digest(&mut self, buf: &[u8])
        ensures
            final(self)@ == spec_digest(old(self)@, buf@),
    {
        self.inner.extend_from_slice(buf);
        proof {
            assert(self.inner@ =~= old(self).inner@ + buf@);
            assert(self@ =~= spec_digest(old(self)@, buf@));
        }
    }

    /// Discards all pending bytes and expects a file header again.
    pub fn reset(&mut self)
        ensures
            final(self)@.pending == Seq::<u8>::empty(),
            final(self)@.state is FileHeader,
            final(self)@.checksum == old(self)@.checksum,
    {
        self.inner.clear();
        self.state = DeserialiserState::FileHeader;
    }

    /// Consumes the next complete frame from the pending bytes, following
    /// the parse protocol of `spec_parse_file_header` and
    /// `spec_parse_block` for the current state.
    pub fn deserialise(&mut self) -> (r: Result<DeserialisedResult, BinaryGcodeError>)
        ensures
            old(self)@.state is FileHeader ==> match spec_parse_file_header(old(self)@.pending) {
                HeaderParse::NeedMore(n) => {
                    &&& r matches Ok(DeserialisedResult::MoreBytesRequired(m)) && m == n
                    &&& final(self)@ == old(self)@
                },
                HeaderParse::Fail(e) => r == Err::<DeserialisedResult, BinaryGcodeError>(e)
                    && final(self)@ == old(self)@,
                HeaderParse::Complete { version, checksum } => {
                    &&& r matches Ok(DeserialisedResult::FileHeader(h)) && h
                        == (DeserialisedFileHeader { magic: MAGIC, version, checksum })
                    &&& final(self)@.pending == old(self)@.pending.skip(10)
                    &&& final(self)@.state is Block
                    &&& final(self)@.checksum == checksum
                },
            },
            old(self)@.state is Block ==> match spec_parse_block(
                old(self)@.pending,
                old(self)@.checksum,
            ) {
                BlockParse::NeedMore(n) => {
                    &&& r matches Ok(DeserialisedResult::MoreBytesRequired(m)) && m
                        == clamp_to_usize(n)
                    &&& final(self)@ == old(self)@
                },
                BlockParse::Fail(e) => r == Err::<DeserialisedResult, BinaryGcodeError>(e)
                    && final(self)@ == old(self)@,
                BlockParse::Complete { total, block } => {
                    &&& r matches Ok(DeserialisedResult::Block(b)) && b.model() == block
                    &&& final(self)@.pending == old(self)@.pending.skip(total)
                    &&& final(self)@.state is Block
                    &&& final(self)@.checksum == old(self)@.checksum
                },
            },
    {
        match self.state {
            DeserialiserState::FileHeader => self.deserialise_file_header(),
            DeserialiserState::Block => self.deserialise_block(),
        }
    }

    /// Reads and validates the ten-byte file header.
    fn deserialise_file_header(&mut self) -> (r: Result<DeserialisedResult, BinaryGcodeError>)
        requires
            old(self)@.state is FileHeader,
        ensures
            match spec_parse_file_header(old(self)@.pending) {
                HeaderParse::NeedMore(n) => {
                    &&& r matches Ok(DeserialisedResult::MoreBytesRequired(m)) && m == n
                    &&& final(self)@ == old(self)@
                },
                HeaderParse::Fail(e) => r == Err::<DeserialisedResult, BinaryGcodeError>(e)
                    && final(self)@ == old(self)@,
                HeaderParse::Complete { version, checksum } => {
                    &&& r matches Ok(DeserialisedResult::FileHeader(h)) && h
                        == (DeserialisedFileHeader { magic: MAGIC, version, checksum })
                    &&& final(self)@.pending == old(self)@.pending.skip(10)
                    &&& final(self)@.state is Block
                    &&& final(self)@.checksum == checksum
                },
            },
    {
        if self.inner.len() < 10 {
            return Ok(DeserialisedResult::MoreBytesRequired(10 - self.inner.len()));
        }
        let magic = read_u32_le(self.inner[0], self.inner[1], self.inner[2], self.inner[3]);
        if magic != MAGIC {
            return Err(BinaryGcodeError::InvalidMagic(magic));
        }
        let version = read_u32_le(self.inner[4], self.inner[5], self.inner[6], self.inner[7]);
        let checksum_value = read_u16_le(self.inner[8], self.inner[9]);
        let checksum: Checksum = match checksum_value {
            1 => Checksum::Crc32,
            0 => Checksum::NoChecksum,
            v => {
                return Err(BinaryGcodeError::InvalidChecksumType(v));
            },
        };
        let fh = DeserialisedFileHeader { magic, version, checksum };
        self.checksum = checksum;
        self.state = DeserialiserState::Block;
        let tail = self.inner.split_off(10);
        self.inner = tail;
        Ok(DeserialisedResult::FileHeader(fh))
    }

    /// Reads and validates one block frame.
    fn deserialise_block(&mut self) -> (r: Result<DeserialisedResult, BinaryGcodeError>)
        requires
            old(self)@.state is Block,
        ensures
            match spec_parse_block(old(self)@.pending, old(self)@.checksum) {
                BlockParse::NeedMore(n) => {
                    &&& r matches Ok(DeserialisedResult::MoreBytesRequired(m)) && m
                        == clamp_to_usize(n)
                    &&& final(self)@ == old(self)@
                },
                BlockParse::Fail(e) => r == Err::<DeserialisedResult, BinaryGcodeError>(e)
                    && final(self)@ == old(self)@,
                BlockParse::Complete { total, block } => {
                    &&& r matches Ok(DeserialisedResult::Block(b)) && b.model() == block
                    &&& final(self)@.pending == old(self)@.pending.skip(total)
                    &&& final(self)@.state is Block
                    &&& final(self)@.checksum == old(self)@.checksum
                },
            },
    {
        if self.inner.len() < 12 {
            return Ok(DeserialisedResult::MoreBytesRequired(12 - self.inner.len()));
        }
        let kind_code = read_u16_le(self.inner[0], self.inner[1]);
        let kind = match BlockKind::new(kind_code) {
            Ok(k) => k,
            Err(e) => {
                return Err(e);
            },
        };
        let comp_code = read_u16_le(self.inner[2], self.inner[3]);
        let compression = match CompressionAlgorithm::new(comp_code) {
            Ok(c) => c,
            Err(e) => {
                return Err(e);
            },
        };
        let data_uncompressed_len = read_u32_le(
            self.inner[4],
            self.inner[5],
            self.inner[6],
            self.inner[7],
        ) as usize;
        let (header_len, payload_len, data_compressed_len): (usize, usize, Option<usize>) =
            match compression {
            CompressionAlgorithm::NoCompression => (8, data_uncompressed_len, None),
            _ => {
                let c = read_u32_le(
                    self.inner[8],
                    self.inner[9],
                    self.inner[10],
                    self.inner[11],
                ) as usize;
                (12, c, Some(c))
            },
        };
        let param_len = kind.parameter_byte_size();
        let cs_len = self.checksum.checksum_byte_size();
        let total_wide: u64 = header_len as u64 + param_len as u64 + payload_len as u64
            + cs_len as u64;
        if (self.inner.len() as u64) < total_wide {
            let diff = total_wide - self.inner.len() as u64;
            let need: usize = if diff > usize::MAX as u64 {
                usize::MAX
            } else {
                diff as usize
            };
            return Ok(DeserialisedResult::MoreBytesRequired(need));
        }
        let total = total_wide as usize;
        match self.checksum {
            Checksum::Crc32 => {
                let stored = read_u32_le(
                    self.inner[total - 4],
                    self.inner[total - 3],
                    self.inner[total - 2],
                    self.inner[total - 1],
                );
                let region: &[u8] = &self.inner.as_slice()[0..total - 4];
                let computed = crc32(region);
                proof {
                    assert(region@ =~= old(self)@.pending.take(total - 4));
                }
                if stored != computed {
                    return Err(BinaryGcodeError::InvalidChecksum(stored, computed));
                }
            },
            Checksum::NoChecksum => {},
        }
        let encoding = match Encoding::from_le_bytes(
            [self.inner[header_len], self.inner[header_len + 1]],
            &kind,
        ) {
            Ok(e) => e,
            Err(e) => {
                return Err(e);
            },
        };
        let parameters = copy_range(&self.inner, header_len, header_len + param_len);
        let data = copy_range(&self.inner, header_len + param_len, total - cs_len);
        let b = DeserialisedBlock {
            kind,
            data_compressed_len,
            data_uncompressed_len,
            compression,
            encoding,
            parameters,
            data,
        };
        let tail = self.inner.split_off(total);
        self.inner = tail;
        proof {
            let p = spec_parse_block(old(self)@.pending, old(self)@.checksum);
            assert(p matches BlockParse::Complete { total: t, block } ==> b.model() =~= block);
        }
        Ok(DeserialisedResult::Block(b))
    }
}


/// Errors surfaced while decoding a block's payload.
#[derive(Debug)]
pub enum BlockError {
    DecodeError(&'static str),
}

impl DeserialisedBlock {
    /// Decompresses the stored payload under the block's own compression
    /// setting, into exactly `data_uncompressed_len` bytes. With no
    /// compression the payload must already have that length; a deflate
    /// or heatshrink failure, or a different output length, is an error.
    pub fn decompress(&self) -> (r: Result<Vec<u8>, BlockError>)
        ensures
            r matches Ok(v) ==> v@.len() == self.data_uncompressed_len,
            self.compression is NoCompression ==> if self.data@.len()
                == self.data_uncompressed_len {
                r matches Ok(v) && v@ == self.data@
            } else {
                r is Err
            },
            self.compression is Deflate ==> match inflate_of(self.data@) {
                Some(x) => if x.len() == self.data_uncompressed_len {
                    r matches Ok(v) && v@ == x
                } else {
                    r is Err
                },
                None => r is Err,
            },
            self.compression is Heatshrink11_4 ==> (r matches Ok(v) ==> v@ == unshrink_of(
                self.data@,
                11,
                4,
            )),
            self.compression is Heatshrink12_4 ==> (r matches Ok(v) ==> v@ == unshrink_of(
                self.data@,
                12,
                4,
            )),
    {
        match decompress_bytes(
            self.data.as_slice(),
            self.data_uncompressed_len,
            self.compression,
        ) {
            Ok(v) => Ok(v),
            Err(e) => {
                let reason: &'static str = match e {
                    BinaryGcodeError::DeflateError => "deflate",
                    BinaryGcodeError::DataLengthMissMatch => "length mismatch",
                    _ => "heatshrink",
                };
                Err(BlockError::DecodeError(reason))
            },
        }
    }
}

} // verus!
