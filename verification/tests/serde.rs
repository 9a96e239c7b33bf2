use binarygcode::common::{crc32, BinaryGcodeError, BlockKind, Checksum, CompressionAlgorithm, Encoding};
use binarygcode::compression::{compress_bytes, decompress_bytes};
use binarygcode::{serialise_block, serialise_file_header, DeserialisedResult, Deserialiser};

#[test]
pub fn serde_gcode_none() {
    let header = serialise_file_header(1, Checksum::Crc32);
    let gcode = "M73 P0 R30";
    let block = serialise_block(
        BlockKind::GCode,
        CompressionAlgorithm::NoCompression,
        Encoding::Ascii,
        Checksum::Crc32,
        &[],
        gcode.as_bytes(),
    )
    .unwrap();
    let mut deserialiser = Deserialiser::default();
    deserialiser.digest(&header);
    deserialiser.digest(&block);
    loop {
        let r = deserialiser.deserialise().unwrap();
        match r {
            DeserialisedResult::FileHeader(_) => {}
            DeserialisedResult::Block(_) => {}
            DeserialisedResult::MoreBytesRequired(_) => {
                break;
            }
        }
    }
}

#[test]
pub fn serde_gcode_deflate() {
    let header = serialise_file_header(1, Checksum::Crc32);
    let gcode = "M73 P0 R30";
    let block = serialise_block(
        BlockKind::GCode,
        CompressionAlgorithm::Deflate,
        Encoding::Ascii,
        Checksum::Crc32,
        &[],
        gcode.as_bytes(),
    )
    .unwrap();
    let mut deserialiser = Deserialiser::default();
    deserialiser.digest(&header);
    deserialiser.digest(&block);
    loop {
        let r = deserialiser.deserialise().unwrap();
        match r {
            DeserialisedResult::FileHeader(_) => {}
            DeserialisedResult::Block(_) => {}
            DeserialisedResult::MoreBytesRequired(_) => {
                break;
            }
        }
    }
}

#[test]
pub fn serde_gcode_deflate_no_crc() {
    let header = serialise_file_header(1, Checksum::NoChecksum);
    let gcode = "M73 P0 R30";
    let block = serialise_block(
        BlockKind::GCode,
        CompressionAlgorithm::Deflate,
        Encoding::Ascii,
        Checksum::NoChecksum,
        &[],
        gcode.as_bytes(),
    )
    .unwrap();
    let mut deserialiser = Deserialiser::default();
    deserialiser.digest(&header);
    deserialiser.digest(&block);
    loop {
        let r = deserialiser.deserialise().unwrap();
        match r {
            DeserialisedResult::FileHeader(_) => {}
            DeserialisedResult::Block(_) => {}
            DeserialisedResult::MoreBytesRequired(_) => {
                break;
            }
        }
    }
}

/// Builds a small complete file: header, file metadata, deflate slicer
/// metadata, a heatshrink G-code block and an uncompressed thumbnail.
fn build_test_file() -> Vec<u8> {
    let mut file = Vec::new();
    file.extend_from_slice(&serialise_file_header(1, Checksum::Crc32));
    let blocks: Vec<Vec<u8>> = vec![
        serialise_block(
            BlockKind::FileMetadata,
            CompressionAlgorithm::NoCompression,
            Encoding::Ini,
            Checksum::Crc32,
            &[],
            b"; generated by a slicer\n",
        )
        .unwrap(),
        serialise_block(
            BlockKind::SlicerMetadata,
            CompressionAlgorithm::Deflate,
            Encoding::Ini,
            Checksum::Crc32,
            &[],
            b"; prusaslicer_config = begin\n; layer_height = 0.2\n; prusaslicer_config = end",
        )
        .unwrap(),
        serialise_block(
            BlockKind::Thumbnail,
            CompressionAlgorithm::NoCompression,
            Encoding::Png,
            Checksum::Crc32,
            &[2, 0, 3, 0],
            &[1, 2, 3, 4, 5, 6, 7, 8],
        )
        .unwrap(),
        serialise_block(
            BlockKind::GCode,
            CompressionAlgorithm::Heatshrink11_4,
            Encoding::Ascii,
            Checksum::Crc32,
            &[],
            b"M73 P0 R30\nG1 X1 Y1\nM73 P100 R0\n",
        )
        .unwrap(),
    ];
    for b in blocks {
        file.extend_from_slice(&b);
    }
    file
}

#[test]
fn deser_test_file() {
    let mut deserialiser = Deserialiser::default();
    let file = build_test_file();
    deserialiser.digest(&file);

    let mut kinds = Vec::new();
    loop {
        let r = deserialiser.deserialise().unwrap();
        match r {
            DeserialisedResult::MoreBytesRequired(_) => {
                break;
            }
            DeserialisedResult::Block(b) => kinds.push(b.kind),
            _ => (),
        }
    }
    assert_eq!(
        kinds,
        vec![
            BlockKind::FileMetadata,
            BlockKind::SlicerMetadata,
            BlockKind::Thumbnail,
            BlockKind::GCode
        ]
    );
}

#[test]
fn header_crc_scenario() {
    // The ten header bytes "GCDE", version 1, checksum code 1.
    let bytes = [0x47, 0x43, 0x44, 0x45, 0x01, 0x00, 0x00, 0x00, 0x01, 0x00];
    let mut d = Deserialiser::default();
    d.digest(&bytes);
    match d.deserialise().unwrap() {
        DeserialisedResult::FileHeader(h) => {
            assert_eq!(h.magic, 0x45444347);
            assert_eq!(h.version, 1);
            assert_eq!(h.checksum, Checksum::Crc32);
        }
        _ => panic!("expected a file header"),
    }
    assert_eq!(d.inner.len(), 0);
}

#[test]
fn header_no_crc_scenario() {
    let bytes = [0x47, 0x43, 0x44, 0x45, 0x02, 0x00, 0x00, 0x00, 0x00, 0x00];
    let mut d = Deserialiser::default();
    d.digest(&bytes);
    match d.deserialise().unwrap() {
        DeserialisedResult::FileHeader(h) => {
            assert_eq!(h.version, 2);
            assert_eq!(h.checksum, Checksum::NoChecksum);
        }
        _ => panic!("expected a file header"),
    }
}

#[test]
fn header_invalid_magic_scenario() {
    let bytes = [0x48, 0x43, 0x44, 0x45, 0x01, 0x00, 0x00, 0x00, 0x01, 0x00];
    let mut d = Deserialiser::default();
    d.digest(&bytes);
    match d.deserialise() {
        Err(BinaryGcodeError::InvalidMagic(got)) => assert_eq!(got, 0x45444348),
        r => panic!("expected InvalidMagic, got {:?}", r),
    }
}

#[test]
fn header_invalid_checksum_type() {
    let bytes = [0x47, 0x43, 0x44, 0x45, 0x01, 0x00, 0x00, 0x00, 0x07, 0x00];
    let mut d = Deserialiser::default();
    d.digest(&bytes);
    match d.deserialise() {
        Err(BinaryGcodeError::InvalidChecksumType(v)) => assert_eq!(v, 7),
        r => panic!("expected InvalidChecksumType, got {:?}", r),
    }
}

#[test]
fn uncompressed_metadata_scenario() {
    // File header (version 1, no checksum), then a FileMetadata/Ini block
    // with a seventeen-byte payload and no CRC field.
    let payload = b"; generated by X\n";
    assert_eq!(payload.len(), 17);
    let block = serialise_block(
        BlockKind::FileMetadata,
        CompressionAlgorithm::NoCompression,
        Encoding::Ini,
        Checksum::NoChecksum,
        &[],
        payload,
    )
    .unwrap();
    assert_eq!(&block[0..10], &[0, 0, 0, 0, 0x11, 0, 0, 0, 0, 0]);
    assert_eq!(&block[10..], payload);

    let mut d = Deserialiser::default();
    d.digest(&serialise_file_header(1, Checksum::NoChecksum));
    d.digest(&block);
    d.deserialise().unwrap();
    match d.deserialise().unwrap() {
        DeserialisedResult::Block(b) => {
            assert_eq!(b.kind, BlockKind::FileMetadata);
            assert_eq!(b.data_uncompressed_len, 17);
            assert_eq!(b.data_compressed_len, None);
            assert_eq!(b.data, payload.to_vec());
            assert_eq!(b.decompress().unwrap(), payload.to_vec());
        }
        r => panic!("expected a block, got {:?}", r),
    }
}

#[test]
fn deflate_gcode_scenario() {
    let payload = b"M73 P0 R30";
    let header = serialise_file_header(1, Checksum::Crc32);
    let block = serialise_block(
        BlockKind::GCode,
        CompressionAlgorithm::Deflate,
        Encoding::Ascii,
        Checksum::Crc32,
        &[],
        payload,
    )
    .unwrap();
    let mut d = Deserialiser::default();
    d.digest(&header);
    d.digest(&block);
    match d.deserialise().unwrap() {
        DeserialisedResult::FileHeader(h) => assert_eq!(h.checksum, Checksum::Crc32),
        r => panic!("expected header, got {:?}", r),
    }
    match d.deserialise().unwrap() {
        DeserialisedResult::Block(b) => {
            assert_eq!(b.kind, BlockKind::GCode);
            assert_eq!(b.compression, CompressionAlgorithm::Deflate);
            assert_eq!(b.encoding, Encoding::Ascii);
            assert_eq!(b.data_uncompressed_len, 10);
            assert_eq!(b.decompress().unwrap(), payload.to_vec());
        }
        r => panic!("expected block, got {:?}", r),
    }
    match d.deserialise().unwrap() {
        DeserialisedResult::MoreBytesRequired(n) => assert_eq!(n, 12),
        r => panic!("expected a byte request, got {:?}", r),
    }
}

#[test]
fn heatshrink_chunked_scenario() {
    // The same block compressed with heatshrink, fed one byte at a time,
    // produces the same events as feeding it whole.
    let payload = b"M73 P0 R30";
    let mut stream = serialise_file_header(1, Checksum::Crc32);
    stream.extend_from_slice(
        &serialise_block(
            BlockKind::GCode,
            CompressionAlgorithm::Heatshrink11_4,
            Encoding::Ascii,
            Checksum::Crc32,
            &[],
            payload,
        )
        .unwrap(),
    );

    let mut whole = Deserialiser::default();
    whole.digest(&stream);
    let mut whole_events = Vec::new();
    loop {
        match whole.deserialise().unwrap() {
            DeserialisedResult::FileHeader(h) => whole_events.push(format!("{:?}", h)),
            DeserialisedResult::Block(b) => {
                whole_events.push(format!("{:?} {:?}", b.kind, b.decompress().unwrap()))
            }
            DeserialisedResult::MoreBytesRequired(_) => break,
        }
    }

    let mut chunked = Deserialiser::default();
    let mut chunked_events = Vec::new();
    for byte in &stream {
        chunked.digest(&[*byte]);
        loop {
            match chunked.deserialise().unwrap() {
                DeserialisedResult::FileHeader(h) => chunked_events.push(format!("{:?}", h)),
                DeserialisedResult::Block(b) => {
                    chunked_events.push(format!("{:?} {:?}", b.kind, b.decompress().unwrap()))
                }
                DeserialisedResult::MoreBytesRequired(_) => break,
            }
        }
    }
    assert_eq!(whole_events, chunked_events);
    assert_eq!(whole_events.len(), 2);
    assert!(whole_events[1].contains("77, 55, 51")); // "M73" decompressed
}

#[test]
fn crc_tamper_scenario() {
    // Corrupting the final byte of a CRC-framed block must be detected.
    let payload = b"M73 P0 R30";
    let header = serialise_file_header(1, Checksum::Crc32);
    let mut block = serialise_block(
        BlockKind::GCode,
        CompressionAlgorithm::Deflate,
        Encoding::Ascii,
        Checksum::Crc32,
        &[],
        payload,
    )
    .unwrap();
    let last = block.len() - 1;
    block[last] ^= 0x01;
    let mut d = Deserialiser::default();
    d.digest(&header);
    d.digest(&block);
    d.deserialise().unwrap();
    match d.deserialise() {
        Err(BinaryGcodeError::InvalidChecksum(_, _)) => {}
        r => panic!("expected InvalidChecksum, got {:?}", r),
    }
}

#[test]
fn single_byte_flips_never_yield_a_frame() {
    // Flipping any single byte of a CRC-framed block yields an error or a
    // request for more bytes, never a successfully parsed frame.
    let payload = b"M73 P0 R30\n";
    let header = serialise_file_header(1, Checksum::Crc32);
    let block = serialise_block(
        BlockKind::GCode,
        CompressionAlgorithm::Heatshrink11_4,
        Encoding::Ascii,
        Checksum::Crc32,
        &[],
        payload,
    )
    .unwrap();
    for i in 0..block.len() {
        let mut tampered = block.clone();
        tampered[i] ^= 0x01;
        let mut d = Deserialiser::default();
        d.digest(&header);
        d.digest(&tampered);
        d.deserialise().unwrap();
        match d.deserialise() {
            Err(_) => {}
            Ok(DeserialisedResult::MoreBytesRequired(_)) => {}
            Ok(r) => panic!("flip at {} went unnoticed: {:?}", i, r),
        }
    }
}

#[test]
fn unknown_block_kind_code() {
    let mut d = Deserialiser::default();
    d.digest(&serialise_file_header(1, Checksum::NoChecksum));
    d.deserialise().unwrap();
    d.digest(&[9, 0, 0, 0, 0, 0, 0, 0, 0, 0, 0, 0]);
    match d.deserialise() {
        Err(BinaryGcodeError::UnsupportedBlockKind(v)) => assert_eq!(v, 9),
        r => panic!("expected UnsupportedBlockKind, got {:?}", r),
    }
}

#[test]
fn unknown_compression_code() {
    let mut d = Deserialiser::default();
    d.digest(&serialise_file_header(1, Checksum::NoChecksum));
    d.deserialise().unwrap();
    d.digest(&[1, 0, 8, 0, 0, 0, 0, 0, 0, 0, 0, 0]);
    match d.deserialise() {
        Err(BinaryGcodeError::UnsupportedCompressionAlgorithm(v)) => assert_eq!(v, 8),
        r => panic!("expected UnsupportedCompressionAlgorithm, got {:?}", r),
    }
}

#[test]
fn illegal_encoding_pair() {
    // A FileMetadata block whose encoding code is 2 is illegal.
    let mut d = Deserialiser::default();
    d.digest(&serialise_file_header(1, Checksum::NoChecksum));
    d.deserialise().unwrap();
    d.digest(&[0, 0, 0, 0, 0, 0, 0, 0, 2, 0, 0, 0]);
    match d.deserialise() {
        Err(BinaryGcodeError::UnsupportedEncoding(v)) => assert_eq!(v, 2),
        r => panic!("expected UnsupportedEncoding, got {:?}", r),
    }
}

#[test]
fn decompress_length_mismatch() {
    // A valid deflate stream whose decoded length differs from the
    // declared uncompressed size is a length mismatch.
    match decompress_bytes(
        &compress_bytes(b"hello world", CompressionAlgorithm::Deflate).unwrap(),
        5,
        CompressionAlgorithm::Deflate,
    ) {
        Err(BinaryGcodeError::DataLengthMissMatch) => {}
        r => panic!("expected DataLengthMissMatch, got {:?}", r),
    }
}

#[test]
fn corrupt_deflate_stream() {
    match decompress_bytes(&[1, 2, 3, 4], 4, CompressionAlgorithm::Deflate) {
        Err(BinaryGcodeError::DeflateError) => {}
        r => panic!("expected DeflateError, got {:?}", r),
    }
}

#[test]
fn compress_round_trips() {
    let text = b"G1 X1 Y1\nG1 X2 Y2\nG1 X3 Y3\nG1 X1 Y1\nG1 X2 Y2\nG1 X3 Y3\n";
    for alg in [
        CompressionAlgorithm::NoCompression,
        CompressionAlgorithm::Deflate,
        CompressionAlgorithm::Heatshrink11_4,
        CompressionAlgorithm::Heatshrink12_4,
    ] {
        let c = compress_bytes(text, alg).unwrap();
        let back = decompress_bytes(&c, text.len(), alg).unwrap();
        assert_eq!(back, text.to_vec(), "round trip failed for {:?}", alg);
    }
}

#[test]
fn crc32_known_value() {
    // The CRC-32/ISO-HDLC check value for the nine ASCII digits.
    assert_eq!(crc32(b"123456789"), 0xCBF43926);
    assert_eq!(crc32(b""), 0);
}

#[test]
fn reset_discards_pending_bytes() {
    let mut d = Deserialiser::default();
    d.digest(&[1, 2, 3]);
    d.reset();
    assert_eq!(d.inner.len(), 0);
    match d.deserialise().unwrap() {
        DeserialisedResult::MoreBytesRequired(n) => assert_eq!(n, 10),
        r => panic!("expected a byte request, got {:?}", r),
    }
}

#[test]
fn block_serialiser_matches_free_function() {
    let s = binarygcode::serialiser::BlockSerialiser::new(
        BlockKind::GCode,
        CompressionAlgorithm::Deflate,
        Checksum::Crc32,
        Encoding::Ascii,
    )
    .unwrap();
    let a = s.serialise(b"M73 P0 R30").unwrap();
    let b = serialise_block(
        BlockKind::GCode,
        CompressionAlgorithm::Deflate,
        Encoding::Ascii,
        Checksum::Crc32,
        &[],
        b"M73 P0 R30",
    )
    .unwrap();
    assert_eq!(a, b);
}

#[test]
fn block_serialiser_rejects_illegal_pair() {
    match binarygcode::serialiser::BlockSerialiser::new(
        BlockKind::FileMetadata,
        CompressionAlgorithm::NoCompression,
        Checksum::Crc32,
        Encoding::Meatpack,
    ) {
        Err(BinaryGcodeError::UnsupportedEncoding(v)) => assert_eq!(v, 1),
        r => panic!("expected UnsupportedEncoding, got {:?}", r),
    }
}
