use binarygcode::file_header::{FileChecksum, FileHeader, FileHeaderError};

#[test]
fn test_valid_file_header_crc() {
    // Valid magic, version 1, CRC framing.
    let bytes = [71, 67, 68, 69, 1, 0, 0, 0, 1, 0];
    let header = FileHeader::from_bytes(&bytes);
    assert!(header.is_ok());
    let header = header.unwrap();
    assert_eq!(header.checksum, FileChecksum::Crc32);
    assert_eq!(header.version, 1);
}

#[test]
fn test_valid_file_header_no_crc() {
    // Valid magic, version 1, no checksum.
    let bytes = [71, 67, 68, 69, 1, 0, 0, 0, 0, 0];
    let header = FileHeader::from_bytes(&bytes);
    assert!(header.is_ok());
    let header = header.unwrap();
    assert_eq!(header.checksum, FileChecksum::NoChecksum);
    assert_eq!(header.version, 1);
}

#[test]
fn test_valid_file_header_version_2() {
    // Valid magic, version 2, no checksum.
    let bytes = [71, 67, 68, 69, 2, 0, 0, 0, 0, 0];
    let header = FileHeader::from_bytes(&bytes);
    assert!(header.is_ok());
    let header = header.unwrap();
    assert_eq!(header.checksum, FileChecksum::NoChecksum);
    assert_eq!(header.version, 2);
}

#[test]
fn test_invalid_magic() {
    let bytes = [72, 67, 68, 69, 1, 0, 0, 0, 1, 0];
    let header = FileHeader::from_bytes(&bytes);
    assert!(header.is_err());
    let header = header.err().unwrap();
    assert_eq!(header, FileHeaderError::InvalidMagic);
}

#[test]
fn test_to_bytes() {
    let header = FileHeader::new(1, FileChecksum::Crc32);
    let bytes = header.to_bytes();
    assert_eq!(bytes, [71, 67, 68, 69, 1, 0, 0, 0, 1, 0])
}

#[test]
fn test_invalid_checksum_code() {
    let bytes = [71, 67, 68, 69, 1, 0, 0, 0, 9, 0];
    let header = FileHeader::from_bytes(&bytes);
    assert_eq!(header.err().unwrap(), FileHeaderError::InvalidChecksum);
}
