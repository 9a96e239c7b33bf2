use binarygcode::common::{BlockKind, Checksum, CompressionAlgorithm, Encoding};
use binarygcode::{ascii_to_binary, binary_to_ascii, serialise_block, serialise_file_header};
use binarygcode::{DeserialisedResult, Deserialiser};

fn text_fixture() -> String {
    let mut t = String::new();
    t.push_str("; generated by TestSlicer 1.0\n");
    t.push_str("\n");
    t.push_str("M73 P0 R30\n");
    t.push_str("G1 X1 Y1\n");
    t.push_str("G1 X2 Y2\n");
    t.push_str("M73 P100 R0\n");
    t.push_str("; printer_model = MK4\n");
    t.push_str("; nozzle_diameter = 0.4\n");
    t.push_str("\n");
    t.push_str("; prusaslicer_config = begin\n");
    t.push_str("; layer_height = 0.2\n");
    t.push_str("; prusaslicer_config = end");
    t
}

#[test]
fn convert_thumbnail_block() {}

#[test]
fn ascii_to_binary_emits_expected_blocks() {
    let binary = ascii_to_binary(text_fixture().as_bytes()).unwrap();
    let mut d = Deserialiser::default();
    d.digest(&binary);
    let mut kinds = Vec::new();
    let mut payloads = Vec::new();
    loop {
        match d.deserialise().unwrap() {
            DeserialisedResult::FileHeader(h) => {
                assert_eq!(h.version, 1);
                assert_eq!(h.checksum, Checksum::Crc32);
            }
            DeserialisedResult::Block(b) => {
                kinds.push(b.kind);
                payloads.push(b.decompress().unwrap());
            }
            DeserialisedResult::MoreBytesRequired(_) => break,
        }
    }
    assert_eq!(
        kinds,
        vec![
            BlockKind::FileMetadata,
            BlockKind::PrinterMetadata,
            BlockKind::SlicerMetadata,
            BlockKind::GCode
        ]
    );
    assert_eq!(payloads[0], b"; generated by TestSlicer 1.0".to_vec());
    assert_eq!(
        payloads[1],
        b"; printer_model = MK4\n; nozzle_diameter = 0.4\n\n".to_vec()
    );
    assert_eq!(
        payloads[2],
        b"; prusaslicer_config = begin\n; layer_height = 0.2\n; prusaslicer_config = end".to_vec()
    );
    assert_eq!(
        payloads[3],
        b"M73 P0 R30\nG1 X1 Y1\nG1 X2 Y2\nM73 P100 R0\n".to_vec()
    );
}

#[test]
fn text_round_trip_preserves_content() {
    // Text converted to binary and back keeps the G-code body and the
    // printer and slicer metadata content, inside the canonical wrapping.
    let binary = ascii_to_binary(text_fixture().as_bytes()).unwrap();
    let text = binary_to_ascii(&binary, true).unwrap();
    let text = String::from_utf8(text).unwrap();
    assert!(text.contains("; generated by TestSlicer 1.0"));
    assert!(text.contains("; printer_model = MK4"));
    assert!(text.contains("; nozzle_diameter = 0.4"));
    assert!(text.contains("; layer_height = 0.2"));
    assert!(text.contains("M73 P0 R30\nG1 X1 Y1\nG1 X2 Y2\nM73 P100 R0\n"));
    assert!(text.contains("; [GCODE_START]\n"));
    assert!(text.contains("; [GCODE_END]\n"));
    assert!(text.contains("; [PRINTER_METADATA_START]\n"));
    assert!(text.contains("; [SLICER_METADATA_START]\n"));
}

#[test]
fn thumbnail_text_round_trip() {
    // A thumbnail rendered to text parses back to the same pixel bytes.
    let payload: Vec<u8> = (0u8..=199).collect();
    let mut binary = serialise_file_header(1, Checksum::Crc32).to_vec();
    binary.extend_from_slice(
        &serialise_block(
            BlockKind::Thumbnail,
            CompressionAlgorithm::NoCompression,
            Encoding::Png,
            Checksum::Crc32,
            &[2, 0, 3, 0],
            &payload,
        )
        .unwrap(),
    );
    let text = binary_to_ascii(&binary, true).unwrap();
    let text_str = String::from_utf8(text.clone()).unwrap();
    let b64 = base64::Engine::encode(&base64::prelude::BASE64_STANDARD, &payload);
    assert!(text_str.contains(&format!("; thumbnail begin 2x3 {}\n", b64.len())));
    assert!(text_str.contains("; [THUMBNAIL_START]\n"));
    assert!(text_str.contains("; thumbnail end \n"));
    // Every base64 line is at most 78 characters after its "; " prefix.
    for line in text_str.lines() {
        assert!(line.len() <= 80, "line too long: {}", line);
    }

    // Now parse the text back to binary and compare the decoded payload.
    let back = ascii_to_binary(&text).unwrap();
    let mut d = Deserialiser::default();
    d.digest(&back);
    let mut seen = false;
    loop {
        match d.deserialise().unwrap() {
            DeserialisedResult::Block(b) => {
                if b.kind == BlockKind::Thumbnail {
                    assert_eq!(b.encoding, Encoding::Png);
                    assert_eq!(b.parameters, vec![0, 0, 2, 0, 3, 0]);
                    assert_eq!(b.data, payload);
                    seen = true;
                }
            }
            DeserialisedResult::MoreBytesRequired(_) => break,
            _ => {}
        }
    }
    assert!(seen, "no thumbnail block came back");
}

#[test]
fn thumbnails_can_be_left_out() {
    let payload: Vec<u8> = vec![9; 32];
    let mut binary = serialise_file_header(1, Checksum::Crc32).to_vec();
    binary.extend_from_slice(
        &serialise_block(
            BlockKind::Thumbnail,
            CompressionAlgorithm::NoCompression,
            Encoding::Jpg,
            Checksum::Crc32,
            &[4, 0, 4, 0],
            &payload,
        )
        .unwrap(),
    );
    let with = String::from_utf8(binary_to_ascii(&binary, true).unwrap()).unwrap();
    let without = String::from_utf8(binary_to_ascii(&binary, false).unwrap()).unwrap();
    assert!(with.contains("; thumbnail_JPG begin 4x4 "));
    assert!(!without.contains("thumbnail"));
}

#[test]
fn meatpack_gcode_round_trip() {
    // G-code packed by the external meatpack packer comes back unchanged
    // through a meatpack-encoded block.
    let gcode = b"G1 X1.0 Y2.0\nG1 X2.0 Y3.0\nM104 S210\n";
    let mut packed: Vec<u8> = Vec::new();
    let mut packer = meatpack::Packer::new(false, false);
    let mut reader: &[u8] = gcode;
    packer.pack(&mut reader, &mut packed).unwrap();

    let mut binary = serialise_file_header(1, Checksum::Crc32).to_vec();
    binary.extend_from_slice(
        &serialise_block(
            BlockKind::GCode,
            CompressionAlgorithm::NoCompression,
            Encoding::Meatpack,
            Checksum::Crc32,
            &[],
            &packed,
        )
        .unwrap(),
    );
    let text = String::from_utf8(binary_to_ascii(&binary, false).unwrap()).unwrap();
    assert!(text.contains("G1 X1.0 Y2.0\n"));
    assert!(text.contains("G1 X2.0 Y3.0\n"));
    assert!(text.contains("M104 S210\n"));
}

#[test]
fn metadata_lines_gain_comment_prefixes() {
    // A metadata payload whose lines do not start with a semicolon gains
    // "; " prefixes in the canonical text.
    let mut binary = serialise_file_header(1, Checksum::NoChecksum).to_vec();
    binary.extend_from_slice(
        &serialise_block(
            BlockKind::PrintMetadata,
            CompressionAlgorithm::NoCompression,
            Encoding::Ini,
            Checksum::NoChecksum,
            &[],
            b"alpha = 1\n; beta = 2\ngamma = 3",
        )
        .unwrap(),
    );
    let text = String::from_utf8(binary_to_ascii(&binary, false).unwrap()).unwrap();
    assert!(text.contains("; [PRINT_METADATA_START]\n"));
    assert!(text.contains("; alpha = 1\n"));
    assert!(text.contains("; beta = 2\n"));
    assert!(text.contains("; gamma = 3\n; [PRINT_METADATA_END]\n"));
}

#[test]
fn empty_text_gives_bare_header() {
    let binary = ascii_to_binary(b"").unwrap();
    assert_eq!(binary.len(), 10);
    assert_eq!(&binary[0..4], &[0x47, 0x43, 0x44, 0x45]);
}

#[test]
fn gcode_long_line_is_capped() {
    // A single G-code line longer than the sixteen-bit limit is split so
    // that no block's uncompressed size exceeds 65535 bytes, and the
    // concatenated payloads still equal the whole region.
    let mut text = Vec::new();
    text.extend_from_slice(b"M73 P0 R30\n");
    text.extend_from_slice(&vec![b'X'; 70000]);
    text.extend_from_slice(b"\nM73 P100 R0\n");
    let region = text.clone();
    let binary = ascii_to_binary(&text).unwrap();
    let mut d = Deserialiser::default();
    d.digest(&binary);
    let mut joined = Vec::new();
    loop {
        match d.deserialise().unwrap() {
            DeserialisedResult::Block(b) => {
                assert_eq!(b.kind, BlockKind::GCode);
                assert!(b.data_uncompressed_len <= 65535);
                joined.extend_from_slice(&b.decompress().unwrap());
            }
            DeserialisedResult::MoreBytesRequired(_) => break,
            _ => {}
        }
    }
    assert_eq!(joined, region);
}
