//! Rendering of deserialised blocks to the canonical textual G-code
//! form: wrapped metadata sections, Base64 thumbnails in bounded comment
//! lines, and the G-code body, decoded through the external meatpack
//! adapter where the block demands it. Every emitted byte is stated by
//! spec functions.

use vstd::prelude::*;

use crate::common::{u16_le, read_u16_le, BinaryGcodeError, BlockKind, Checksum, Encoding};
use crate::compression::{decompress_bytes, inflate_of, unshrink_of};
use crate::deserialiser::{
    lemma_parse_block_bounds, spec_parse_block, spec_parse_file_header, BlockParse, DeserView,
    DeserialisedBlock, DeserialisedResult, Deserialiser, DeserialiserState, HeaderParse,
};

verus! {

/// What the external base64 encoder (standard alphabet, padded) makes of
/// a byte sequence.
pub uninterp spec fn b64_of(s: Seq<u8>) -> Seq<u8>;

/// What the external base64 decoder returns for a byte sequence, when it
/// succeeds.
pub uninterp spec fn b64_decode_of(s: Seq<u8>) -> Option<Seq<u8>>;

/// What the external meatpack decoder makes of a packed byte stream.
pub uninterp spec fn meatpack_unpacked(s: Seq<u8>) -> Seq<u8>;

/// Whether the external meatpack decoder accepts a packed byte stream.
pub uninterp spec fn meatpack_ok(s: Seq<u8>) -> bool;

/// Relies on base64's `BASE64_STANDARD.encode`: the ASCII bytes of the
/// padded standard-alphabet encoding, four characters for every three
/// input bytes.
#[verifier::external_body]
fn b64_encode(data: &[u8]) -> (r: Vec<u8>)
    ensures
        r@ == b64_of(data@),
        r@.len() == 4 * ((data@.len() + 2) / 3),
{
    base64::Engine::encode(&base64::prelude::BASE64_STANDARD, data).into_bytes()
}

/// Relies on base64's `BASE64_STANDARD.decode`: succeeds exactly on a
/// canonical padded standard-alphabet encoding, and returns the bytes
/// whose encoding the input is.
#[verifier::external_body]
pub fn b64_decode(data: &[u8]) -> (r: Option<Vec<u8>>)
    ensures
        match r {
            Some(v) => b64_decode_of(data@) == Some(v@) && b64_of(v@) == data@,
            None => b64_decode_of(data@) is None,
        },
{
    match base64::Engine::decode(&base64::prelude::BASE64_STANDARD, data) {
        Ok(v) => Some(v),
        Err(_) => None,
    }
}

/// Relies on `meatpack::Unpacker::unpack`: decodes a meatpack byte
/// stream, appending the decoded G-code to the output and never touching
/// what is already there; whether it succeeds, and what it decodes,
/// depend on the input bytes alone.
#[verifier::external_body]
fn meatpack_unpack(data: &[u8], out: &mut Vec<u8>) -> (ok: bool)
    ensures
        ok == meatpack_ok(data@),
        ok ==> final(out)@ == old(out)@ + meatpack_unpacked(data@),
        !ok ==> old(out)@.is_prefix_of(final(out)@),
{
    let mut unpacker = meatpack::Unpacker::default();
    let mut reader: &[u8] = data;
    unpacker.unpack(&mut reader, out).is_ok()
}

/// The bytes of `b'; [FILE_METADATA_START]\n'`.
pub open spec fn spec_fm_start() -> Seq<u8> {
    seq![59u8, 32u8, 91u8, 70u8, 73u8, 76u8, 69u8, 95u8, 77u8, 69u8, 84u8, 65u8, 68u8, 65u8, 84u8, 65u8, 95u8, 83u8, 84u8, 65u8, 82u8, 84u8, 93u8, 10u8]
}

/// The bytes of `b'\n; [FILE_METADATA_END]\n'`.
pub open spec fn spec_fm_end() -> Seq<u8> {
    seq![10u8, 59u8, 32u8, 91u8, 70u8, 73u8, 76u8, 69u8, 95u8, 77u8, 69u8, 84u8, 65u8, 68u8, 65u8, 84u8, 65u8, 95u8, 69u8, 78u8, 68u8, 93u8, 10u8]
}

/// The bytes of `b'; [PRINTER_METADATA_START]\n'`.
pub open spec fn spec_printer_start() -> Seq<u8> {
    seq![59u8, 32u8, 91u8, 80u8, 82u8, 73u8, 78u8, 84u8, 69u8, 82u8, 95u8, 77u8, 69u8, 84u8, 65u8, 68u8, 65u8, 84u8, 65u8, 95u8, 83u8, 84u8, 65u8, 82u8, 84u8, 93u8, 10u8]
}

/// The bytes of `b'\n; [PRINTER_METADATA_END]\n'`.
pub open spec fn spec_printer_end() -> Seq<u8> {
    seq![10u8, 59u8, 32u8, 91u8, 80u8, 82u8, 73u8, 78u8, 84u8, 69u8, 82u8, 95u8, 77u8, 69u8, 84u8, 65u8, 68u8, 65u8, 84u8, 65u8, 95u8, 69u8, 78u8, 68u8, 93u8, 10u8]
}

/// The bytes of `b'; [PRINT_METADATA_START]\n'`.
pub open spec fn spec_print_start() -> Seq<u8> {
    seq![59u8, 32u8, 91u8, 80u8, 82u8, 73u8, 78u8, 84u8, 95u8, 77u8, 69u8, 84u8, 65u8, 68u8, 65u8, 84u8, 65u8, 95u8, 83u8, 84u8, 65u8, 82u8, 84u8, 93u8, 10u8]
}

/// The bytes of `b'\n; [PRINT_METADATA_END]\n'`.
pub open spec fn spec_print_end() -> Seq<u8> {
    seq![10u8, 59u8, 32u8, 91u8, 80u8, 82u8, 73u8, 78u8, 84u8, 95u8, 77u8, 69u8, 84u8, 65u8, 68u8, 65u8, 84u8, 65u8, 95u8, 69u8, 78u8, 68u8, 93u8, 10u8]
}

/// The bytes of `b'; [SLICER_METADATA_START]\n'`.
pub open spec fn spec_slicer_start() -> Seq<u8> {
    seq![59u8, 32u8, 91u8, 83u8, 76u8, 73u8, 67u8, 69u8, 82u8, 95u8, 77u8, 69u8, 84u8, 65u8, 68u8, 65u8, 84u8, 65u8, 95u8, 83u8, 84u8, 65u8, 82u8, 84u8, 93u8, 10u8]
}

/// The bytes of `b'\n; [SLICER_METADATA_END]\n'`.
pub open spec fn spec_slicer_end() -> Seq<u8> {
    seq![10u8, 59u8, 32u8, 91u8, 83u8, 76u8, 73u8, 67u8, 69u8, 82u8, 95u8, 77u8, 69u8, 84u8, 65u8, 68u8, 65u8, 84u8, 65u8, 95u8, 69u8, 78u8, 68u8, 93u8, 10u8]
}

/// The bytes of `b'; [THUMBNAIL_START]\n'`.
pub open spec fn spec_thumb_start() -> Seq<u8> {
    seq![59u8, 32u8, 91u8, 84u8, 72u8, 85u8, 77u8, 66u8, 78u8, 65u8, 73u8, 76u8, 95u8, 83u8, 84u8, 65u8, 82u8, 84u8, 93u8, 10u8]
}

/// The bytes of `b'; [THUMBNAIL_END]\n'`.
pub open spec fn spec_thumb_end() -> Seq<u8> {
    seq![59u8, 32u8, 91u8, 84u8, 72u8, 85u8, 77u8, 66u8, 78u8, 65u8, 73u8, 76u8, 95u8, 69u8, 78u8, 68u8, 93u8, 10u8]
}

/// The bytes of `b'; thumbnail begin '`.
pub open spec fn spec_tb_png() -> Seq<u8> {
    seq![59u8, 32u8, 116u8, 104u8, 117u8, 109u8, 98u8, 110u8, 97u8, 105u8, 108u8, 32u8, 98u8, 101u8, 103u8, 105u8, 110u8, 32u8]
}

/// The bytes of `b'; thumbnail_JPG begin '`.
pub open spec fn spec_tb_jpg() -> Seq<u8> {
    seq![59u8, 32u8, 116u8, 104u8, 117u8, 109u8, 98u8, 110u8, 97u8, 105u8, 108u8, 95u8, 74u8, 80u8, 71u8, 32u8, 98u8, 101u8, 103u8, 105u8, 110u8, 32u8]
}

/// The bytes of `b'; thumbnail_QOI begin '`.
pub open spec fn spec_tb_qoi() -> Seq<u8> {
    seq![59u8, 32u8, 116u8, 104u8, 117u8, 109u8, 98u8, 110u8, 97u8, 105u8, 108u8, 95u8, 81u8, 79u8, 73u8, 32u8, 98u8, 101u8, 103u8, 105u8, 110u8, 32u8]
}

/// The bytes of `b'; thumbnail end \n;\n'`.
pub open spec fn spec_te_png() -> Seq<u8> {
    seq![59u8, 32u8, 116u8, 104u8, 117u8, 109u8, 98u8, 110u8, 97u8, 105u8, 108u8, 32u8, 101u8, 110u8, 100u8, 32u8, 10u8, 59u8, 10u8]
}

/// The bytes of `b'; thumbnail_JPG end \n;\n'`.
pub open spec fn spec_te_jpg() -> Seq<u8> {
    seq![59u8, 32u8, 116u8, 104u8, 117u8, 109u8, 98u8, 110u8, 97u8, 105u8, 108u8, 95u8, 74u8, 80u8, 71u8, 32u8, 101u8, 110u8, 100u8, 32u8, 10u8, 59u8, 10u8]
}

/// The bytes of `b'; thumbnail_QOI end \n;\n'`.
pub open spec fn spec_te_qoi() -> Seq<u8> {
    seq![59u8, 32u8, 116u8, 104u8, 117u8, 109u8, 98u8, 110u8, 97u8, 105u8, 108u8, 95u8, 81u8, 79u8, 73u8, 32u8, 101u8, 110u8, 100u8, 32u8, 10u8, 59u8, 10u8]
}

/// The bytes of `b'; [GCODE_START]\n'`.
pub open spec fn spec_gcode_start() -> Seq<u8> {
    seq![59u8, 32u8, 91u8, 71u8, 67u8, 79u8, 68u8, 69u8, 95u8, 83u8, 84u8, 65u8, 82u8, 84u8, 93u8, 10u8]
}

/// The bytes of `b'; [GCODE_END]\n'`.
pub open spec fn spec_gcode_end() -> Seq<u8> {
    seq![59u8, 32u8, 91u8, 71u8, 67u8, 79u8, 68u8, 69u8, 95u8, 69u8, 78u8, 68u8, 93u8, 10u8]
}
fn push_fm_start(out: &mut Vec<u8>)
    ensures
        final(out)@ == old(out)@ + spec_fm_start(),
{
    let m: [u8; 24] = [59u8, 32u8, 91u8, 70u8, 73u8, 76u8, 69u8, 95u8, 77u8, 69u8, 84u8, 65u8, 68u8, 65u8, 84u8, 65u8, 95u8, 83u8, 84u8, 65u8, 82u8, 84u8, 93u8, 10u8];
    out.extend_from_slice(m.as_slice());
    proof {
        assert(final(out)@ =~= old(out)@ + spec_fm_start());
    }
}
fn push_fm_end(out: &mut Vec<u8>)
    ensures
        final(out)@ == old(out)@ + spec_fm_end(),
{
    let m: [u8; 23] = [10u8, 59u8, 32u8, 91u8, 70u8, 73u8, 76u8, 69u8, 95u8, 77u8, 69u8, 84u8, 65u8, 68u8, 65u8, 84u8, 65u8, 95u8, 69u8, 78u8, 68u8, 93u8, 10u8];
    out.extend_from_slice(m.as_slice());
    proof {
        assert(final(out)@ =~= old(out)@ + spec_fm_end());
    }
}
fn push_printer_start(out: &mut Vec<u8>)
    ensures
        final(out)@ == old(out)@ + spec_printer_start(),
{
    let m: [u8; 27] = [59u8, 32u8, 91u8, 80u8, 82u8, 73u8, 78u8, 84u8, 69u8, 82u8, 95u8, 77u8, 69u8, 84u8, 65u8, 68u8, 65u8, 84u8, 65u8, 95u8, 83u8, 84u8, 65u8, 82u8, 84u8, 93u8, 10u8];
    out.extend_from_slice(m.as_slice());
    proof {
        assert(final(out)@ =~= old(out)@ + spec_printer_start());
    }
}
fn push_printer_end(out: &mut Vec<u8>)
    ensures
        final(out)@ == old(out)@ + spec_printer_end(),
{
    let m: [u8; 26] = [10u8, 59u8, 32u8, 91u8, 80u8, 82u8, 73u8, 78u8, 84u8, 69u8, 82u8, 95u8, 77u8, 69u8, 84u8, 65u8, 68u8, 65u8, 84u8, 65u8, 95u8, 69u8, 78u8, 68u8, 93u8, 10u8];
    out.extend_from_slice(m.as_slice());
    proof {
        assert(final(out)@ =~= old(out)@ + spec_printer_end());
    }
}
fn push_print_start(out: &mut Vec<u8>)
    ensures
        final(out)@ == old(out)@ + spec_print_start(),
{
    let m: [u8; 25] = [59u8, 32u8, 91u8, 80u8, 82u8, 73u8, 78u8, 84u8, 95u8, 77u8, 69u8, 84u8, 65u8, 68u8, 65u8, 84u8, 65u8, 95u8, 83u8, 84u8, 65u8, 82u8, 84u8, 93u8, 10u8];
    out.extend_from_slice(m.as_slice());
    proof {
        assert(final(out)@ =~= old(out)@ + spec_print_start());
    }
}
fn push_print_end(out: &mut Vec<u8>)
    ensures
        final(out)@ == old(out)@ + spec_print_end(),
{
    let m: [u8; 24] = [10u8, 59u8, 32u8, 91u8, 80u8, 82u8, 73u8, 78u8, 84u8, 95u8, 77u8, 69u8, 84u8, 65u8, 68u8, 65u8, 84u8, 65u8, 95u8, 69u8, 78u8, 68u8, 93u8, 10u8];
    out.extend_from_slice(m.as_slice());
    proof {
        assert(final(out)@ =~= old(out)@ + spec_print_end());
    }
}
fn push_slicer_start(out: &mut Vec<u8>)
    ensures
        final(out)@ == old(out)@ + spec_slicer_start(),
{
    let m: [u8; 26] = [59u8, 32u8, 91u8, 83u8, 76u8, 73u8, 67u8, 69u8, 82u8, 95u8, 77u8, 69u8, 84u8, 65u8, 68u8, 65u8, 84u8, 65u8, 95u8, 83u8, 84u8, 65u8, 82u8, 84u8, 93u8, 10u8];
    out.extend_from_slice(m.as_slice());
    proof {
        assert(final(out)@ =~= old(out)@ + spec_slicer_start());
    }
}
fn push_slicer_end(out: &mut Vec<u8>)
    ensures
        final(out)@ == old(out)@ + spec_slicer_end(),
{
    let m: [u8; 25] = [10u8, 59u8, 32u8, 91u8, 83u8, 76u8, 73u8, 67u8, 69u8, 82u8, 95u8, 77u8, 69u8, 84u8, 65u8, 68u8, 65u8, 84u8, 65u8, 95u8, 69u8, 78u8, 68u8, 93u8, 10u8];
    out.extend_from_slice(m.as_slice());
    proof {
        assert(final(out)@ =~= old(out)@ + spec_slicer_end());
    }
}
fn push_thumb_start(out: &mut Vec<u8>)
    ensures
        final(out)@ == old(out)@ + spec_thumb_start(),
{
    let m: [u8; 20] = [59u8, 32u8, 91u8, 84u8, 72u8, 85u8, 77u8, 66u8, 78u8, 65u8, 73u8, 76u8, 95u8, 83u8, 84u8, 65u8, 82u8, 84u8, 93u8, 10u8];
    out.extend_from_slice(m.as_slice());
    proof {
        assert(final(out)@ =~= old(out)@ + spec_thumb_start());
    }
}
fn push_thumb_end(out: &mut Vec<u8>)
    ensures
        final(out)@ == old(out)@ + spec_thumb_end(),
{
    let m: [u8; 18] = [59u8, 32u8, 91u8, 84u8, 72u8, 85u8, 77u8, 66u8, 78u8, 65u8, 73u8, 76u8, 95u8, 69u8, 78u8, 68u8, 93u8, 10u8];
    out.extend_from_slice(m.as_slice());
    proof {
        assert(final(out)@ =~= old(out)@ + spec_thumb_end());
    }
}
fn push_tb_png(out: &mut Vec<u8>)
    ensures
        final(out)@ == old(out)@ + spec_tb_png(),
{
    let m: [u8; 18] = [59u8, 32u8, 116u8, 104u8, 117u8, 109u8, 98u8, 110u8, 97u8, 105u8, 108u8, 32u8, 98u8, 101u8, 103u8, 105u8, 110u8, 32u8];
    out.extend_from_slice(m.as_slice());
    proof {
        assert(final(out)@ =~= old(out)@ + spec_tb_png());
    }
}
fn push_tb_jpg(out: &mut Vec<u8>)
    ensures
        final(out)@ == old(out)@ + spec_tb_jpg(),
{
    let m: [u8; 22] = [59u8, 32u8, 116u8, 104u8, 117u8, 109u8, 98u8, 110u8, 97u8, 105u8, 108u8, 95u8, 74u8, 80u8, 71u8, 32u8, 98u8, 101u8, 103u8, 105u8, 110u8, 32u8];
    out.extend_from_slice(m.as_slice());
    proof {
        assert(final(out)@ =~= old(out)@ + spec_tb_jpg());
    }
}
fn push_tb_qoi(out: &mut Vec<u8>)
    ensures
        final(out)@ == old(out)@ + spec_tb_qoi(),
{
    let m: [u8; 22] = [59u8, 32u8, 116u8, 104u8, 117u8, 109u8, 98u8, 110u8, 97u8, 105u8, 108u8, 95u8, 81u8, 79u8, 73u8, 32u8, 98u8, 101u8, 103u8, 105u8, 110u8, 32u8];
    out.extend_from_slice(m.as_slice());
    proof {
        assert(final(out)@ =~= old(out)@ + spec_tb_qoi());
    }
}
fn push_te_png(out: &mut Vec<u8>)
    ensures
        final(out)@ == old(out)@ + spec_te_png(),
{
    let m: [u8; 19] = [59u8, 32u8, 116u8, 104u8, 117u8, 109u8, 98u8, 110u8, 97u8, 105u8, 108u8, 32u8, 101u8, 110u8, 100u8, 32u8, 10u8, 59u8, 10u8];
    out.extend_from_slice(m.as_slice());
    proof {
        assert(final(out)@ =~= old(out)@ + spec_te_png());
    }
}
fn push_te_jpg(out: &mut Vec<u8>)
    ensures
        final(out)@ == old(out)@ + spec_te_jpg(),
{
    let m: [u8; 23] = [59u8, 32u8, 116u8, 104u8, 117u8, 109u8, 98u8, 110u8, 97u8, 105u8, 108u8, 95u8, 74u8, 80u8, 71u8, 32u8, 101u8, 110u8, 100u8, 32u8, 10u8, 59u8, 10u8];
    out.extend_from_slice(m.as_slice());
    proof {
        assert(final(out)@ =~= old(out)@ + spec_te_jpg());
    }
}
fn push_te_qoi(out: &mut Vec<u8>)
    ensures
        final(out)@ == old(out)@ + spec_te_qoi(),
{
    let m: [u8; 23] = [59u8, 32u8, 116u8, 104u8, 117u8, 109u8, 98u8, 110u8, 97u8, 105u8, 108u8, 95u8, 81u8, 79u8, 73u8, 32u8, 101u8, 110u8, 100u8, 32u8, 10u8, 59u8, 10u8];
    out.extend_from_slice(m.as_slice());
    proof {
        assert(final(out)@ =~= old(out)@ + spec_te_qoi());
    }
}
fn push_gcode_start(out: &mut Vec<u8>)
    ensures
        final(out)@ == old(out)@ + spec_gcode_start(),
{
    let m: [u8; 16] = [59u8, 32u8, 91u8, 71u8, 67u8, 79u8, 68u8, 69u8, 95u8, 83u8, 84u8, 65u8, 82u8, 84u8, 93u8, 10u8];
    out.extend_from_slice(m.as_slice());
    proof {
        assert(final(out)@ =~= old(out)@ + spec_gcode_start());
    }
}
fn push_gcode_end(out: &mut Vec<u8>)
    ensures
        final(out)@ == old(out)@ + spec_gcode_end(),
{
    let m: [u8; 14] = [59u8, 32u8, 91u8, 71u8, 67u8, 79u8, 68u8, 69u8, 95u8, 69u8, 78u8, 68u8, 93u8, 10u8];
    out.extend_from_slice(m.as_slice());
    proof {
        assert(final(out)@ =~= old(out)@ + spec_gcode_end());
    }
}

/// What a stored payload decompresses to under a block's own settings,
/// when the length comes out right.
pub open spec fn spec_decompressed(
    compression: crate::common::CompressionAlgorithm,
    data: Seq<u8>,
    unc_len: int,
) -> Option<Seq<u8>> {
    match compression {
        crate::common::CompressionAlgorithm::NoCompression => if data.len() == unc_len {
            Some(data)
        } else {
            None
        },
        crate::common::CompressionAlgorithm::Deflate => match inflate_of(data) {
            Some(x) => if x.len() == unc_len {
                Some(x)
            } else {
                None
            },
            None => None,
        },
        crate::common::CompressionAlgorithm::Heatshrink11_4 => {
            let u = unshrink_of(data, 11, 4);
            if u.len() == unc_len {
                Some(u)
            } else {
                None
            }
        },
        crate::common::CompressionAlgorithm::Heatshrink12_4 => {
            let u = unshrink_of(data, 12, 4);
            if u.len() == unc_len {
                Some(u)
            } else {
                None
            }
        },
    }
}

/// The comment-escaped middle of a metadata payload, from position `i`:
/// a newline before a semicolon passes through, any other newline gains
/// a `"; "` prefix for the next line, and the last byte is left to the
/// caller.
pub open spec fn spec_meta_escape(data: Seq<u8>, i: int) -> Seq<u8>
    decreases data.len() - i,
{
    if i < 0 || i + 1 >= data.len() {
        Seq::<u8>::empty()
    } else {
        (if data[i] == 10 && data[i + 1] == 59 {
            seq![10u8]
        } else if data[i] == 10 {
            seq![10u8, 59u8, 32u8]
        } else {
            seq![data[i]]
        }) + spec_meta_escape(data, i + 1)
    }
}

/// A metadata payload in canonical comment form: a `"; "` prefix when the
/// payload does not already start with a semicolon, the escaped middle,
/// and the final byte verbatim.
pub open spec fn spec_meta_body(data: Seq<u8>) -> Seq<u8> {
    if data.len() == 0 {
        Seq::<u8>::empty()
    } else {
        (if data[0] != 59 {
            seq![59u8, 32u8]
        } else {
            Seq::<u8>::empty()
        }) + spec_meta_escape(data, 0) + seq![data[data.len() - 1]]
    }
}

/// The decimal digits of a nonnegative number.
pub open spec fn spec_dec_digits(n: int) -> Seq<u8>
    decreases n,
{
    if n < 10 {
        seq![(48 + (if n >= 0 { n } else { 0 })) as u8]
    } else {
        spec_dec_digits(n / 10) + seq![(48 + n % 10) as u8]
    }
}

/// Base64 text broken into `"; "`-prefixed lines of at most 78 characters.
pub open spec fn spec_b64_lines(s: Seq<u8>, i: int) -> Seq<u8>
    decreases s.len() - i,
{
    if i < 0 || i >= s.len() {
        Seq::<u8>::empty()
    } else {
        let j = if i + 78 <= s.len() {
            i + 78
        } else {
            s.len() as int
        };
        seq![59u8, 32u8] + s.subrange(i, j) + seq![10u8] + spec_b64_lines(s, j)
    }
}

/// The opening marker of a metadata section.
pub open spec fn spec_meta_start(kind: BlockKind) -> Seq<u8> {
    match kind {
        BlockKind::FileMetadata => spec_fm_start(),
        BlockKind::PrinterMetadata => spec_printer_start(),
        BlockKind::PrintMetadata => spec_print_start(),
        BlockKind::SlicerMetadata => spec_slicer_start(),
        _ => Seq::<u8>::empty(),
    }
}

/// The closing marker of a metadata section.
pub open spec fn spec_meta_end(kind: BlockKind) -> Seq<u8> {
    match kind {
        BlockKind::FileMetadata => spec_fm_end(),
        BlockKind::PrinterMetadata => spec_printer_end(),
        BlockKind::PrintMetadata => spec_print_end(),
        BlockKind::SlicerMetadata => spec_slicer_end(),
        _ => Seq::<u8>::empty(),
    }
}

/// The `thumbnail … begin` tag for an encoding.
pub open spec fn spec_thumb_begin_tag(encoding: Encoding) -> Seq<u8> {
    match encoding {
        Encoding::Png => spec_tb_png(),
        Encoding::Jpg => spec_tb_jpg(),
        Encoding::Qoi => spec_tb_qoi(),
        _ => Seq::<u8>::empty(),
    }
}

/// The `thumbnail … end` tag for an encoding.
pub open spec fn spec_thumb_end_tag(encoding: Encoding) -> Seq<u8> {
    match encoding {
        Encoding::Png => spec_te_png(),
        Encoding::Jpg => spec_te_jpg(),
        Encoding::Qoi => spec_te_qoi(),
        _ => Seq::<u8>::empty(),
    }
}

/// A thumbnail block in canonical text: markers, a begin line with the
/// width, height and base64 length, the base64 body in bounded lines,
/// and the end tag.
pub open spec fn spec_thumbnail_ascii(
    encoding: Encoding,
    params: Seq<u8>,
    payload: Seq<u8>,
) -> Seq<u8> {
    let w = u16_le(params[2], params[3]);
    let h = u16_le(params[4], params[5]);
    let b = b64_of(payload);
    spec_thumb_start() + (if encoding is Png || encoding is Jpg || encoding is Qoi {
        spec_thumb_begin_tag(encoding) + spec_dec_digits(w as int) + seq![120u8]
            + spec_dec_digits(h as int) + seq![32u8] + spec_dec_digits(b.len() as int)
            + seq![10u8]
    } else {
        Seq::<u8>::empty()
    }) + spec_b64_lines(b, 0) + spec_thumb_end_tag(encoding) + spec_thumb_end()
}

/// A G-code block in canonical text: the markers around the payload,
/// decoded through meatpack when the encoding demands it.
pub open spec fn spec_gcode_ascii(encoding: Encoding, payload: Seq<u8>) -> Seq<u8> {
    spec_gcode_start() + (match encoding {
        Encoding::Ascii => payload,
        Encoding::Meatpack => meatpack_unpacked(payload),
        Encoding::MeatpackWithComments => meatpack_unpacked(payload),
        _ => Seq::<u8>::empty(),
    }) + spec_gcode_end()
}

/// One block in canonical text, given its decompressed payload.
pub open spec fn spec_block_ascii(
    kind: BlockKind,
    encoding: Encoding,
    params: Seq<u8>,
    payload: Seq<u8>,
) -> Seq<u8> {
    match kind {
        BlockKind::Thumbnail => spec_thumbnail_ascii(encoding, params, payload),
        BlockKind::GCode => spec_gcode_ascii(encoding, payload),
        _ => spec_meta_start(kind) + spec_meta_body(payload) + spec_meta_end(kind),
    }
}

/// Appends the comment-escaped form of a metadata payload.
fn render_meta_body(data: &Vec<u8>, out: &mut Vec<u8>)
    ensures
        final(out)@ == old(out)@ + spec_meta_body(data@),
{
    if data.len() == 0 {
        proof {
            assert(final(out)@ =~= old(out)@ + spec_meta_body(data@));
        }
        return ;
    }
    if data[0] != 59 {
        out.push(59);
        out.push(32);
    }
    let ghost base = out@;
    let mut i: usize = 0;
    while i < data.len() - 1
        invariant
            data.len() > 0,
            i <= data.len(),
            base + spec_meta_escape(data@, 0) == out@ + spec_meta_escape(data@, i as int),
        decreases data.len() - i,
    {
        let ghost before = out@;
        if data[i] == 10 {
            if data[i + 1] == 59 {
                out.push(10);
            } else {
                out.push(10);
                out.push(59);
                out.push(32);
            }
        } else {
            out.push(data[i]);
        }
        proof {
            assert(before + spec_meta_escape(data@, i as int) =~= out@ + spec_meta_escape(
                data@,
                i + 1 as int,
            ));
        }
        i = i + 1;
    }
    out.push(data[data.len() - 1]);
    proof {
        assert(spec_meta_escape(data@, i as int) =~= Seq::<u8>::empty());
        assert(final(out)@ =~= old(out)@ + spec_meta_body(data@));
    }
}

/// Appends the decimal digits of a number.
fn push_dec(out: &mut Vec<u8>, n: u64)
    ensures
        final(out)@ == old(out)@ + spec_dec_digits(n as int),
    decreases n,
{
    if n < 10 {
        out.push(48 + n as u8);
        proof {
            assert(final(out)@ =~= old(out)@ + spec_dec_digits(n as int));
        }
    } else {
        push_dec(out, n / 10);
        out.push(48 + (n % 10) as u8);
        proof {
            assert(final(out)@ =~= old(out)@ + spec_dec_digits(n as int));
        }
    }
}

/// Appends base64 text as `"; "`-prefixed lines of at most 78 characters.
fn push_b64_lines(out: &mut Vec<u8>, s: &[u8])
    ensures
        final(out)@ == old(out)@ + spec_b64_lines(s@, 0),
{
    let ghost base = out@;
    let mut i: usize = 0;
    while i < s.len()
        invariant
            i <= s.len(),
            base + spec_b64_lines(s@, 0) == out@ + spec_b64_lines(s@, i as int),
        decreases s.len() - i,
    {
        let j: usize = if s.len() - i >= 78 {
            i + 78
        } else {
            s.len()
        };
        let ghost before = out@;
        out.push(59);
        out.push(32);
        out.extend_from_slice(&s[i..j]);
        out.push(10);
        proof {
            assert(before + spec_b64_lines(s@, i as int) =~= out@ + spec_b64_lines(s@, j as int));
        }
        i = j;
    }
    proof {
        assert(spec_b64_lines(s@, i as int) =~= Seq::<u8>::empty());
        assert(final(out)@ =~= old(out)@ + spec_b64_lines(s@, 0));
    }
}

/// Appends a thumbnail block's canonical text.
#[verifier::rlimit(100)]
fn render_thumbnail_block(encoding: Encoding, parameters: &Vec<u8>, data: &Vec<u8>, buf: &mut Vec<
    u8,
>)
    requires
        parameters@.len() == 6,
    ensures
        final(buf)@ == old(buf)@ + spec_thumbnail_ascii(encoding, parameters@, data@),
{
    let w = read_u16_le(parameters[2], parameters[3]);
    let h = read_u16_le(parameters[4], parameters[5]);
    let b64 = b64_encode(data.as_slice());
    push_thumb_start(buf);
    match encoding {
        Encoding::Png => push_tb_png(buf),
        Encoding::Jpg => push_tb_jpg(buf),
        Encoding::Qoi => push_tb_qoi(buf),
        _ => {},
    }
    match encoding {
        Encoding::Png | Encoding::Jpg | Encoding::Qoi => {
            push_dec(buf, w as u64);
            buf.push(120);
            push_dec(buf, h as u64);
            buf.push(32);
            push_dec(buf, b64.len() as u64);
            buf.push(10);
        },
        _ => {},
    }
    push_b64_lines(buf, b64.as_slice());
    match encoding {
        Encoding::Png => push_te_png(buf),
        Encoding::Jpg => push_te_jpg(buf),
        Encoding::Qoi => push_te_qoi(buf),
        _ => {},
    }
    push_thumb_end(buf);
    proof {
        assert(final(buf)@ =~= old(buf)@ + spec_thumbnail_ascii(encoding, parameters@, data@));
    }
}

/// Appends a G-code block's canonical text. It fails only when the
/// meatpack decoder does, leaving the markers and the decoder's partial
/// output appended after the buffer's old content.
fn render_gcode_block(encoding: Encoding, data: &Vec<u8>, buf: &mut Vec<u8>) -> (r: Result<
    (),
    BinaryGcodeError,
>)
    ensures
        r is Ok ==> final(buf)@ == old(buf)@ + spec_gcode_ascii(encoding, data@),
        old(buf)@.is_prefix_of(final(buf)@),
        r matches Err(e) ==> e == BinaryGcodeError::MeatpackError,
        !(encoding is Meatpack) && !(encoding is MeatpackWithComments) ==> r is Ok,
        meatpack_ok(data@) ==> r is Ok,
{
    push_gcode_start(buf);
    match encoding {
        Encoding::Ascii => {
            buf.extend_from_slice(data.as_slice());
            proof {
                assert(buf@ =~= old(buf)@ + spec_gcode_start() + data@);
            }
        },
        Encoding::Meatpack => {
            if !meatpack_unpack(data.as_slice(), buf) {
                proof {
                    assert(buf@.subrange(0, old(buf)@.len() as int) =~= old(buf)@);
                }
                return Err(BinaryGcodeError::MeatpackError);
            }
        },
        Encoding::MeatpackWithComments => {
            if !meatpack_unpack(data.as_slice(), buf) {
                proof {
                    assert(buf@.subrange(0, old(buf)@.len() as int) =~= old(buf)@);
                }
                return Err(BinaryGcodeError::MeatpackError);
            }
        },
        _ => {},
    }
    push_gcode_end(buf);
    proof {
        assert(final(buf)@ =~= old(buf)@ + spec_gcode_ascii(encoding, data@));
        assert(final(buf)@.subrange(0, old(buf)@.len() as int) =~= old(buf)@);
    }
    Ok(())
}

/// Appends a metadata block's canonical text.
fn render_meta_block(kind: BlockKind, data: &Vec<u8>, buf: &mut Vec<u8>)
    requires
        !(kind is Thumbnail),
        !(kind is GCode),
    ensures
        final(buf)@ == old(buf)@ + spec_meta_start(kind) + spec_meta_body(data@) + spec_meta_end(
            kind,
        ),
{
    match kind {
        BlockKind::FileMetadata => push_fm_start(buf),
        BlockKind::PrinterMetadata => push_printer_start(buf),
        BlockKind::PrintMetadata => push_print_start(buf),
        _ => push_slicer_start(buf),
    }
    render_meta_body(data, buf);
    match kind {
        BlockKind::FileMetadata => push_fm_end(buf),
        BlockKind::PrinterMetadata => push_printer_end(buf),
        BlockKind::PrintMetadata => push_print_end(buf),
        _ => push_slicer_end(buf),
    }
    proof {
        assert(final(buf)@ =~= old(buf)@ + spec_meta_start(kind) + spec_meta_body(data@)
            + spec_meta_end(kind));
    }
}

impl DeserialisedBlock {
    /// Appends this block's canonical textual form to the buffer:
    /// decompresses the payload, then renders it as a metadata section, a
    /// thumbnail, or a G-code body. When the payload decompresses to its
    /// declared size without the heatshrink pump, the call succeeds
    /// unless the meatpack decoder refuses a meatpack-encoded payload,
    /// and that refusal is the only error left. On an error the buffer
    /// holds the old content followed by a partial rendering; the caller
    /// discards it.
    pub fn to_ascii(&self, buf: &mut Vec<u8>) -> (r: Result<(), BinaryGcodeError>)
        requires
            self.kind is Thumbnail ==> self.parameters@.len() == 6,
        ensures
            r is Ok ==> (spec_decompressed(
                self.compression,
                self.data@,
                self.data_uncompressed_len as int,
            ) matches Some(payload) && final(buf)@ == old(buf)@ + spec_block_ascii(
                self.kind,
                self.encoding,
                self.parameters@,
                payload,
            )),
            old(buf)@.is_prefix_of(final(buf)@),
            ({
                let decompressed = spec_decompressed(
                    self.compression,
                    self.data@,
                    self.data_uncompressed_len as int,
                );
                let pump_free = !(self.compression is Heatshrink11_4) && !(self.compression
                    is Heatshrink12_4);
                &&& (decompressed is Some && pump_free && !(self.encoding is Meatpack) && !(
                self.encoding is MeatpackWithComments) ==> r is Ok)
                &&& (decompressed matches Some(payload) && pump_free && meatpack_ok(payload)
                    ==> r is Ok)
                &&& (decompressed is Some && pump_free && r is Err ==> r == Err::<
                    (),
                    BinaryGcodeError,
                >(BinaryGcodeError::MeatpackError))
            }),
    {
        let data = match decompress_bytes(
            self.data.as_slice(),
            self.data_uncompressed_len,
            self.compression,
        ) {
            Ok(v) => v,
            Err(e) => {
                proof {
                    assert(buf@.subrange(0, old(buf)@.len() as int) =~= old(buf)@);
                }
                return Err(e);
            },
        };
        match self.kind {
            BlockKind::Thumbnail => {
                render_thumbnail_block(self.encoding, &self.parameters, &data, buf);
            },
            BlockKind::GCode => {
                match render_gcode_block(self.encoding, &data, buf) {
                    Ok(_) => {},
                    Err(e) => {
                        return Err(e);
                    },
                }
            },
            _ => {
                render_meta_block(self.kind, &data, buf);
            },
        }
        Ok(())
    }
}


/// The canonical text of every complete block at the front of the
/// pending bytes: blocks are rendered in order until the first
/// incomplete frame; a framing failure, or a payload that does not
/// decompress to its declared size, leaves the text undefined.
pub open spec fn spec_render_stream(
    pending: Seq<u8>,
    cs: Checksum,
    with_thumbnails: bool,
) -> Option<Seq<u8>>
    decreases pending.len(),
{
    match spec_parse_block(pending, cs) {
        BlockParse::NeedMore(_) => Some(Seq::<u8>::empty()),
        BlockParse::Fail(_) => None,
        BlockParse::Complete { total, block } => {
            if 1 <= total <= pending.len() {
                let rest = spec_render_stream(pending.skip(total), cs, with_thumbnails);
                if block.kind is Thumbnail && !with_thumbnails {
                    rest
                } else {
                    match spec_decompressed(block.compression, block.data, block.uncompressed_len) {
                        Some(payload) => match rest {
                            Some(rr) => Some(
                                spec_block_ascii(
                                    block.kind,
                                    block.encoding,
                                    block.parameters,
                                    payload,
                                ) + rr,
                            ),
                            None => None,
                        },
                        None => None,
                    }
                }
            } else {
                None
            }
        },
    }
}

/// The canonical text a deserialiser in the given state will still
/// produce from its pending bytes.
pub open spec fn spec_remaining_render(v: DeserView, with_thumbnails: bool) -> Option<Seq<u8>> {
    match v.state {
        DeserialiserState::FileHeader => match spec_parse_file_header(v.pending) {
            HeaderParse::NeedMore(_) => Some(Seq::<u8>::empty()),
            HeaderParse::Fail(_) => None,
            HeaderParse::Complete { version, checksum } => spec_render_stream(
                v.pending.skip(10),
                checksum,
                with_thumbnails,
            ),
        },
        DeserialiserState::Block => spec_render_stream(v.pending, v.checksum, with_thumbnails),
    }
}

/// The canonical text of a whole binary G-code stream: the file header,
/// then every block in order, thumbnails only when asked for.
pub open spec fn spec_binary_to_ascii(s: Seq<u8>, with_thumbnails: bool) -> Option<Seq<u8>> {
    spec_remaining_render(
        DeserView { pending: s, state: DeserialiserState::FileHeader, checksum: Checksum::NoChecksum },
        with_thumbnails,
    )
}


/// Whether a block renders without any may-fail external call: not
/// heatshrink-compressed and not meatpack-encoded, unless it is a
/// thumbnail that the caller leaves out.
pub open spec fn spec_block_render_total(
    block: crate::deserialiser::BlockModel,
    with_thumbnails: bool,
) -> bool {
    if block.kind is Thumbnail && !with_thumbnails {
        true
    } else {
        !(block.compression is Heatshrink11_4) && !(block.compression is Heatshrink12_4) && !(
        block.encoding is Meatpack) && !(block.encoding is MeatpackWithComments)
    }
}

/// Whether every complete block at the front of the pending bytes
/// renders without a may-fail external call.
pub open spec fn spec_stream_render_total(
    pending: Seq<u8>,
    cs: Checksum,
    with_thumbnails: bool,
) -> bool
    decreases pending.len(),
{
    match spec_parse_block(pending, cs) {
        BlockParse::Complete { total, block } => if 1 <= total <= pending.len() {
            spec_block_render_total(block, with_thumbnails) && spec_stream_render_total(
                pending.skip(total),
                cs,
                with_thumbnails,
            )
        } else {
            true
        },
        _ => true,
    }
}

/// Whether everything a deserialiser in the given state will still
/// render avoids every may-fail external call.
pub open spec fn spec_remaining_render_total(v: DeserView, with_thumbnails: bool) -> bool {
    match v.state {
        DeserialiserState::FileHeader => match spec_parse_file_header(v.pending) {
            HeaderParse::Complete { version, checksum } => spec_stream_render_total(
                v.pending.skip(10),
                checksum,
                with_thumbnails,
            ),
            _ => true,
        },
        DeserialiserState::Block => spec_stream_render_total(v.pending, v.checksum, with_thumbnails),
    }
}

/// Decodes a whole binary G-code stream to its canonical textual form by
/// driving the streaming deserialiser over it, rendering each block, and
/// stopping at the first incomplete frame. Thumbnail blocks are rendered
/// only when `with_thumbnails` is set. When the text is defined and no
/// block needs the heatshrink pump or the meatpack decoder, the call
/// succeeds.
#[verifier::rlimit(100)]
pub fn binary_to_ascii(binary: &[u8], with_thumbnails: bool) -> (r: Result<
    Vec<u8>,
    BinaryGcodeError,
>)
    ensures
        r matches Ok(out) ==> spec_binary_to_ascii(binary@, with_thumbnails) == Some(out@),
        spec_binary_to_ascii(binary@, with_thumbnails) is Some && spec_remaining_render_total(
            DeserView {
                pending: binary@,
                state: DeserialiserState::FileHeader,
                checksum: Checksum::NoChecksum,
            },
            with_thumbnails,
        ) ==> r is Ok,
{
    let ghost start_view = DeserView {
        pending: binary@,
        state: DeserialiserState::FileHeader,
        checksum: Checksum::NoChecksum,
    };
    let mut out: Vec<u8> = Vec::new();
    let mut d = Deserialiser::default();
    d.digest(binary);
    proof {
        assert(d@.pending =~= binary@);
    }
    let mut done = false;
    while !done
        invariant
            start_view == (DeserView {
                pending: binary@,
                state: DeserialiserState::FileHeader,
                checksum: Checksum::NoChecksum,
            }),
            match spec_remaining_render(d@, with_thumbnails) {
                Some(rr) => spec_binary_to_ascii(binary@, with_thumbnails) == Some(out@ + rr),
                None => spec_binary_to_ascii(binary@, with_thumbnails) is None,
            },
            spec_binary_to_ascii(binary@, with_thumbnails) is Some
                && spec_remaining_render_total(start_view, with_thumbnails)
                ==> spec_remaining_render_total(d@, with_thumbnails),
            done ==> spec_remaining_render(d@, with_thumbnails) == Some(Seq::<u8>::empty()),
        decreases d@.pending.len() + (if done { 0int } else { 1int }),
    {
        let ghost prev = d@;
        match d.deserialise() {
            Ok(DeserialisedResult::FileHeader(_)) => {},
            Ok(DeserialisedResult::MoreBytesRequired(_)) => {
                done = true;
            },
            Ok(DeserialisedResult::Block(b)) => {
                proof {
                    lemma_parse_block_bounds(prev.pending, prev.checksum);
                }
                let skip_block = match b.kind {
                    BlockKind::Thumbnail => !with_thumbnails,
                    _ => false,
                };
                if !skip_block {
                    let ghost out_before = out@;
                    match b.to_ascii(&mut out) {
                        Ok(_) => {},
                        Err(e) => {
                            proof {
                                if spec_binary_to_ascii(binary@, with_thumbnails) is Some
                                    && spec_remaining_render_total(start_view, with_thumbnails) {
                                    assert(spec_remaining_render(prev, with_thumbnails) is Some);
                                    assert(spec_remaining_render_total(prev, with_thumbnails));
                                    assert(false);
                                }
                            }
                            return Err(e);
                        },
                    }
                }
            },
            Err(e) => {
                proof {
                    assert(spec_remaining_render(prev, with_thumbnails) is None);
                }
                return Err(e);
            },
        }
    }
    proof {
        assert(out@ + Seq::<u8>::empty() =~= out@);
    }
    Ok(out)
}

} // verus!
