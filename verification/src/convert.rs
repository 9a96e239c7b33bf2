//! The text-to-binary converter: parses the canonical textual G-code form
//! into a framed binary stream, section by section, and frames each
//! section with the block serialiser. Every section boundary is found by
//! a verified substring search stated over the text's byte sequence.

use vstd::prelude::*;

use crate::common::{
    u16_le_bytes, BinaryGcodeError, BlockKind, Checksum, CompressionAlgorithm, Encoding,
};
use crate::compression::{deflate_of, shrink_of, slice_to_vec};
use crate::render::{b64_decode, b64_decode_of};
use crate::serialiser::{
    serialise_block, serialise_file_header, spec_serialised_block, spec_serialised_file_header,
};

verus! {

/// The first position at or after `i` where `n` occurs in `h`.
pub open spec fn spec_find_from(h: Seq<u8>, n: Seq<u8>, i: int) -> Option<int>
    decreases h.len() - i + 1,
{
    if i < 0 || i + n.len() > h.len() {
        None
    } else if h.subrange(i, i + n.len()) == n {
        Some(i)
    } else {
        spec_find_from(h, n, i + 1)
    }
}

/// A found occurrence lies at or after the start position and fits in
/// the text.
pub proof fn lemma_find_from_props(h: Seq<u8>, n: Seq<u8>, i: int)
    ensures
        spec_find_from(h, n, i) matches Some(p) ==> i <= p && p + n.len() <= h.len()
            && h.subrange(p, p + n.len()) == n,
    decreases h.len() - i + 1,
{
    if !(i < 0 || i + n.len() > h.len()) && !(h.subrange(i, i + n.len()) == n) {
        lemma_find_from_props(h, n, i + 1);
    }
}

/// Whether `n` occurs in `h` exactly at position `i`.
fn slice_eq_at(h: &[u8], i: usize, n: &[u8]) -> (b: bool)
    requires
        i + n.len() <= h.len(),
    ensures
        b == (h@.subrange(i as int, i + n.len()) == n@),
{
    let mut j: usize = 0;
    while j < n.len()
        invariant
            j <= n.len(),
            i + n.len() <= h.len(),
            forall|k: int| 0 <= k < j ==> h@[i + k] == n@[k],
        decreases n.len() - j,
    {
        if h[i + j] != n[j] {
            proof {
                assert(h@.subrange(i as int, i + n.len())[j as int] == h@[i + j]);
            }
            return false;
        }
        j = j + 1;
    }
    proof {
        assert(h@.subrange(i as int, i + n.len()) =~= n@);
    }
    true
}

/// The first occurrence of `n` in `h` at or after `from`.
pub fn find_from(h: &[u8], n: &[u8], from: usize) -> (r: Option<usize>)
    ensures
        match r {
            Some(p) => from <= p && p + n@.len() <= h@.len() && spec_find_from(
                h@,
                n@,
                from as int,
            ) == Some(p as int),
            None => spec_find_from(h@, n@, from as int) is None,
        },
{
    if from > h.len() {
        return None;
    }
    if n.len() == 0 {
        proof {
            assert(h@.subrange(from as int, from as int) =~= n@);
        }
        return Some(from);
    }
    let mut i: usize = from;
    while h.len() - i >= n.len()
        invariant
            from <= i <= h.len(),
            n.len() >= 1,
            spec_find_from(h@, n@, from as int) == spec_find_from(h@, n@, i as int),
        decreases h.len() - i,
    {
        if slice_eq_at(h, i, n) {
            return Some(i);
        }
        i = i + 1;
    }
    None
}

/// The end of the digit run starting at `i`.
pub open spec fn spec_digit_end(t: Seq<u8>, i: int) -> int
    decreases t.len() - i,
{
    if i < 0 || i >= t.len() || !(48 <= t[i] <= 57) {
        i
    } else {
        spec_digit_end(t, i + 1)
    }
}

/// The value of the decimal digits `t[i..j]`.
pub open spec fn spec_digits_val(t: Seq<u8>, i: int, j: int) -> int
    decreases j - i,
{
    if j <= i {
        0
    } else {
        spec_digits_val(t, i, j - 1) * 10 + (t[j - 1] - 48)
    }
}

/// Reads the digit run starting at `i`: its end, and its value unless it
/// overflows sixteen bits.
fn parse_u16_digits(t: &[u8], i: usize) -> (r: (usize, Option<u16>))
    requires
        i <= t.len(),
    ensures
        r.0 == spec_digit_end(t@, i as int),
        i <= r.0 <= t@.len(),
        r.1 matches Some(v) ==> v == spec_digits_val(t@, i as int, r.0 as int),
        r.1 is None ==> spec_digits_val(t@, i as int, spec_digit_end(t@, i as int)) > 65535,
{
    let mut j: usize = i;
    let mut acc: u32 = 0;
    let mut over = false;
    while j < t.len() && 48 <= t[j] && t[j] <= 57
        invariant
            i <= j <= t.len(),
            spec_digit_end(t@, i as int) == spec_digit_end(t@, j as int),
            !over ==> acc == spec_digits_val(t@, i as int, j as int) && acc <= 65535,
            over ==> spec_digits_val(t@, i as int, j as int) > 65535,
        decreases t.len() - j,
    {
        let d = t[j] - 48;
        proof {
            lemma_digits_val_grow(t@, i as int, j as int);
        }
        if over {
            proof {
                assert(spec_digits_val(t@, i as int, j + 1 as int) == spec_digits_val(
                    t@,
                    i as int,
                    j as int,
                ) * 10 + (t@[j as int] - 48));
                assert(spec_digits_val(t@, i as int, j as int) * 10 + (t@[j as int] - 48)
                    > 65535) by (nonlinear_arith)
                    requires
                        spec_digits_val(t@, i as int, j as int) > 65535,
                        0 <= t@[j as int] - 48,
                ;
            }
        } else if acc > 6553 || (acc == 6553 && d > 5) {
            over = true;
        } else {
            acc = acc * 10 + d as u32;
        }
        j = j + 1;
    }
    proof {
        assert(spec_digit_end(t@, j as int) == j);
    }
    if over {
        (j, None)
    } else {
        (j, Some(acc as u16))
    }
}

/// One more digit multiplies the value by ten and adds the digit.
proof fn lemma_digits_val_grow(t: Seq<u8>, i: int, j: int)
    requires
        i <= j < t.len(),
    ensures
        spec_digits_val(t, i, j + 1) == spec_digits_val(t, i, j) * 10 + (t[j] - 48),
{
}

/// The bytes of the `"; generated by"` line prefix.
pub open spec fn spec_gen_needle() -> Seq<u8> {
    seq![59u8, 32u8, 103u8, 101u8, 110u8, 101u8, 114u8, 97u8, 116u8, 101u8, 100u8, 32u8, 98u8, 121u8]
}

/// The bytes of `"; printer_model"`.
pub open spec fn spec_pm_needle() -> Seq<u8> {
    seq![59u8, 32u8, 112u8, 114u8, 105u8, 110u8, 116u8, 101u8, 114u8, 95u8, 109u8, 111u8, 100u8, 101u8, 108u8]
}

/// The bytes of a blank line boundary.
pub open spec fn spec_nlnl_needle() -> Seq<u8> {
    seq![10u8, 10u8]
}

/// The bytes of `"; prusaslicer_config = begin"`.
pub open spec fn spec_slicer_begin_needle() -> Seq<u8> {
    seq![59u8, 32u8, 112u8, 114u8, 117u8, 115u8, 97u8, 115u8, 108u8, 105u8, 99u8, 101u8, 114u8, 95u8, 99u8, 111u8, 110u8, 102u8, 105u8, 103u8, 32u8, 61u8, 32u8, 98u8, 101u8, 103u8, 105u8, 110u8]
}

/// The bytes of `"; prusaslicer_config = end"`.
pub open spec fn spec_slicer_end_needle() -> Seq<u8> {
    seq![59u8, 32u8, 112u8, 114u8, 117u8, 115u8, 97u8, 115u8, 108u8, 105u8, 99u8, 101u8, 114u8, 95u8, 99u8, 111u8, 110u8, 102u8, 105u8, 103u8, 32u8, 61u8, 32u8, 101u8, 110u8, 100u8]
}

/// The first line at or after line start `i` that begins with
/// `"; generated by"`, stripped of its newline and of a trailing
/// carriage return.
pub open spec fn spec_gen_line(t: Seq<u8>, i: int) -> Option<Seq<u8>>
    decreases t.len() - i,
{
    if i < 0 || i >= t.len() {
        None
    } else {
        let e = match spec_find_from(t, seq![10u8], i) {
            Some(e) => e,
            None => t.len() as int,
        };
        let stop = if e > i && t[e - 1] == 13 {
            e - 1
        } else {
            e
        };
        let line = t.subrange(i, stop);
        if line.len() >= 14 && line.subrange(0, 14) == spec_gen_needle() {
            Some(line)
        } else if i < e + 1 && e + 1 < t.len() {
            spec_gen_line(t, e + 1)
        } else {
            None
        }
    }
}

/// The file metadata block: the first `"; generated by"` line as an
/// uncompressed INI block, or nothing when there is none.
pub open spec fn spec_file_meta_section(t: Seq<u8>) -> Option<Seq<u8>> {
    match spec_gen_line(t, 0) {
        None => Some(Seq::<u8>::empty()),
        Some(line) => if line.len() > u32::MAX {
            None
        } else {
            Some(
                spec_serialised_block(
                    BlockKind::FileMetadata,
                    CompressionAlgorithm::NoCompression,
                    Encoding::Ini,
                    Checksum::Crc32,
                    Seq::<u8>::empty(),
                    line,
                    line.len() as u32,
                ),
            )
        },
    }
}

/// The printer metadata block: from `"; printer_model"` through the next
/// blank line inclusive, uncompressed; absent when the marker is absent,
/// undefined when the blank line is missing.
pub open spec fn spec_printer_section(t: Seq<u8>) -> Option<Seq<u8>> {
    match spec_find_from(t, spec_pm_needle(), 0) {
        None => Some(Seq::<u8>::empty()),
        Some(p) => match spec_find_from(t, spec_nlnl_needle(), p) {
            None => None,
            Some(e) => {
                let body = t.subrange(p, e + 2);
                if body.len() > u32::MAX {
                    None
                } else {
                    Some(
                        spec_serialised_block(
                            BlockKind::PrinterMetadata,
                            CompressionAlgorithm::NoCompression,
                            Encoding::Ini,
                            Checksum::Crc32,
                            Seq::<u8>::empty(),
                            body,
                            body.len() as u32,
                        ),
                    )
                }
            },
        },
    }
}

/// The slicer metadata block: the `"; prusaslicer_config"` region
/// inclusive of both markers, deflate-compressed; absent when the begin
/// marker is absent, undefined when the end marker is missing.
pub open spec fn spec_slicer_section(t: Seq<u8>) -> Option<Seq<u8>> {
    match spec_find_from(t, spec_slicer_begin_needle(), 0) {
        None => Some(Seq::<u8>::empty()),
        Some(p) => match spec_find_from(t, spec_slicer_end_needle(), p) {
            None => None,
            Some(e) => {
                let body = t.subrange(p, e + 26);
                if body.len() > u32::MAX || deflate_of(body, 10).len() > u32::MAX {
                    None
                } else {
                    Some(
                        spec_serialised_block(
                            BlockKind::SlicerMetadata,
                            CompressionAlgorithm::Deflate,
                            Encoding::Ini,
                            Checksum::Crc32,
                            Seq::<u8>::empty(),
                            deflate_of(body, 10),
                            body.len() as u32,
                        ),
                    )
                }
            },
        },
    }
}

/// Finds the first `"; generated by"` line of the text: the start and
/// end of its content.
fn find_generated_line(t: &[u8]) -> (r: Option<(usize, usize)>)
    ensures
        match r {
            Some(p) => p.0 <= p.1 <= t@.len() && spec_gen_line(t@, 0) == Some(
                t@.subrange(p.0 as int, p.1 as int),
            ),
            None => spec_gen_line(t@, 0) is None,
        },
{
    let gen: [u8; 14] = [59u8, 32u8, 103u8, 101u8, 110u8, 101u8, 114u8, 97u8, 116u8, 101u8, 100u8, 32u8, 98u8, 121u8];
    let nl: [u8; 1] = [10u8];
    proof {
        assert(gen@ =~= spec_gen_needle());
        assert(nl@ =~= seq![10u8]);
    }
    let mut i: usize = 0;
    if t.len() == 0 {
        return None;
    }
    while i < t.len()
        invariant
            i <= t.len(),
            gen@ == spec_gen_needle(),
            nl@ == seq![10u8],
            spec_gen_line(t@, 0) == spec_gen_line(t@, i as int),
        decreases t.len() - i,
    {
        let e = match find_from(t, nl.as_slice(), i) {
            Some(e) => e,
            None => t.len(),
        };
        proof {
            lemma_find_from_props(t@, nl@, i as int);
        }
        let stop = if e > i && t[e - 1] == 13 {
            e - 1
        } else {
            e
        };
        if stop - i >= 14 && slice_eq_at(t, i, gen.as_slice()) {
            proof {
                assert(t@.subrange(i as int, stop as int).subrange(0, 14) =~= t@.subrange(
                    i as int,
                    i + 14 as int,
                ));
                assert(spec_gen_line(t@, i as int) == Some(t@.subrange(i as int, stop as int)));
            }
            return Some((i, stop));
        }
        proof {
            if stop - i >= 14 {
                assert(t@.subrange(i as int, stop as int).subrange(0, 14) =~= t@.subrange(
                    i as int,
                    i + 14 as int,
                ));
            }
        }
        if t.len() - e <= 1 {
            return None;
        }
        i = e + 1;
    }
    None
}

/// Extends the output with a serialised block.
fn extend_with(out: &mut Vec<u8>, block: Vec<u8>)
    ensures
        final(out)@ == old(out)@ + block@,
{
    out.extend_from_slice(block.as_slice());
    proof {
        assert(final(out)@ =~= old(out)@ + block@);
    }
}

/// Appends the file metadata block of the text, if it has one.
fn emit_file_meta(t: &[u8], out: &mut Vec<u8>) -> (r: Result<(), BinaryGcodeError>)
    ensures
        r is Ok ==> (spec_file_meta_section(t@) matches Some(bs) && final(out)@ == old(out)@
            + bs),
        spec_file_meta_section(t@) is Some ==> r is Ok,
{
    match find_generated_line(t) {
        None => {
            proof {
                assert(final(out)@ =~= old(out)@ + Seq::<u8>::empty());
            }
            Ok(())
        },
        Some((a, b)) => {
            if b - a > u32::MAX as usize {
                proof {
                    assert(spec_file_meta_section(t@) is None);
                }
                return Err(BinaryGcodeError::SerialiseError);
            }
            let nop: Vec<u8> = Vec::new();
            match serialise_block(
                BlockKind::FileMetadata,
                CompressionAlgorithm::NoCompression,
                Encoding::Ini,
                Checksum::Crc32,
                nop.as_slice(),
                &t[a..b],
            ) {
                Ok(bl) => {
                    extend_with(out, bl);
                    Ok(())
                },
                Err(e) => {
                    proof {
                        assert(false);
                    }
                    Err(e)
                },
            }
        },
    }
}

/// Appends the printer metadata block of the text, if it has one.
fn emit_printer(t: &[u8], out: &mut Vec<u8>) -> (r: Result<(), BinaryGcodeError>)
    ensures
        r is Ok ==> (spec_printer_section(t@) matches Some(bs) && final(out)@ == old(out)@ + bs),
        spec_printer_section(t@) is Some ==> r is Ok,
{
    let pm: [u8; 15] = [59u8, 32u8, 112u8, 114u8, 105u8, 110u8, 116u8, 101u8, 114u8, 95u8, 109u8, 111u8, 100u8, 101u8, 108u8];
    match find_from(t, pm.as_slice(), 0) {
        None => {
            proof {
                assert(final(out)@ =~= old(out)@ + Seq::<u8>::empty());
            }
            Ok(())
        },
        Some(p) => {
            let nlnl: [u8; 2] = [10u8, 10u8];
            proof {
                assert(nlnl@ =~= spec_nlnl_needle());
            }
            match find_from(t, nlnl.as_slice(), p) {
                None => Err(BinaryGcodeError::SerialiseError),
                Some(e) => {
                    let tl: usize = t.len();
                    proof {
                        assert(e + 2 <= tl);
                    }
                    if e + 2 - p > u32::MAX as usize {
                        proof {
                            assert(spec_printer_section(t@) is None);
                        }
                        return Err(BinaryGcodeError::SerialiseError);
                    }
                    let nop: Vec<u8> = Vec::new();
                    match serialise_block(
                        BlockKind::PrinterMetadata,
                        CompressionAlgorithm::NoCompression,
                        Encoding::Ini,
                        Checksum::Crc32,
                        nop.as_slice(),
                        &t[p..e + 2],
                    ) {
                        Ok(bl) => {
                            extend_with(out, bl);
                            Ok(())
                        },
                        Err(e) => {
                            proof {
                                assert(false);
                            }
                            Err(e)
                        },
                    }
                },
            }
        },
    }
}

/// Appends the deflate-compressed slicer metadata block of the text, if
/// it has one.
fn emit_slicer(t: &[u8], out: &mut Vec<u8>) -> (r: Result<(), BinaryGcodeError>)
    ensures
        r is Ok ==> (spec_slicer_section(t@) matches Some(bs) && final(out)@ == old(out)@ + bs),
        spec_slicer_section(t@) is Some ==> r is Ok,
{
    let sb: [u8; 28] = [59u8, 32u8, 112u8, 114u8, 117u8, 115u8, 97u8, 115u8, 108u8, 105u8, 99u8, 101u8, 114u8, 95u8, 99u8, 111u8, 110u8, 102u8, 105u8, 103u8, 32u8, 61u8, 32u8, 98u8, 101u8, 103u8, 105u8, 110u8];
    match find_from(t, sb.as_slice(), 0) {
        None => {
            proof {
                assert(final(out)@ =~= old(out)@ + Seq::<u8>::empty());
            }
            Ok(())
        },
        Some(p) => {
    let se: [u8; 26] = [59u8, 32u8, 112u8, 114u8, 117u8, 115u8, 97u8, 115u8, 108u8, 105u8, 99u8, 101u8, 114u8, 95u8, 99u8, 111u8, 110u8, 102u8, 105u8, 103u8, 32u8, 61u8, 32u8, 101u8, 110u8, 100u8];
            match find_from(t, se.as_slice(), p) {
                None => Err(BinaryGcodeError::SerialiseError),
                Some(e) => {
                    let tl: usize = t.len();
                    proof {
                        assert(e + 26 <= tl);
                    }
                    if e + 26 - p > u32::MAX as usize {
                        proof {
                            assert(spec_slicer_section(t@) is None);
                        }
                        return Err(BinaryGcodeError::SerialiseError);
                    }
                    let nop: Vec<u8> = Vec::new();
                    match serialise_block(
                        BlockKind::SlicerMetadata,
                        CompressionAlgorithm::Deflate,
                        Encoding::Ini,
                        Checksum::Crc32,
                        nop.as_slice(),
                        &t[p..e + 26],
                    ) {
                        Ok(bl) => {
                            extend_with(out, bl);
                            Ok(())
                        },
                        Err(e) => {
                            proof {
                                assert(spec_slicer_section(t@) is None);
                            }
                            Err(e)
                        },
                    }
                },
            }
        },
    }
}

/// The bytes of `"thumbnail"`.
pub open spec fn spec_thumb_needle() -> Seq<u8> {
    seq![116u8, 104u8, 117u8, 109u8, 98u8, 110u8, 97u8, 105u8, 108u8]
}

/// The bytes of `" begin "`.
pub open spec fn spec_tag_png() -> Seq<u8> {
    seq![32u8, 98u8, 101u8, 103u8, 105u8, 110u8, 32u8]
}

/// The bytes of `"_JPG begin "`.
pub open spec fn spec_tag_jpg() -> Seq<u8> {
    seq![95u8, 74u8, 80u8, 71u8, 32u8, 98u8, 101u8, 103u8, 105u8, 110u8, 32u8]
}

/// The bytes of `"_QOI begin "`.
pub open spec fn spec_tag_qoi() -> Seq<u8> {
    seq![95u8, 81u8, 79u8, 73u8, 32u8, 98u8, 101u8, 103u8, 105u8, 110u8, 32u8]
}

/// The end marker of a thumbnail region, by encoding.
pub open spec fn spec_thumb_end_needle(enc: Encoding) -> Seq<u8> {
    match enc {
        Encoding::Png => seq![59u8, 32u8, 116u8, 104u8, 117u8, 109u8, 98u8, 110u8, 97u8, 105u8, 108u8, 32u8, 101u8, 110u8, 100u8],
        Encoding::Jpg => seq![59u8, 32u8, 116u8, 104u8, 117u8, 109u8, 98u8, 110u8, 97u8, 105u8, 108u8, 95u8, 74u8, 80u8, 71u8, 32u8, 101u8, 110u8, 100u8],
        Encoding::Qoi => seq![59u8, 32u8, 116u8, 104u8, 117u8, 109u8, 98u8, 110u8, 97u8, 105u8, 108u8, 95u8, 81u8, 79u8, 73u8, 32u8, 101u8, 110u8, 100u8],
        _ => Seq::<u8>::empty(),
    }
}

/// Which thumbnail begin tag stands at `p`, and where its header
/// continues.
pub open spec fn spec_tag_at(t: Seq<u8>, p: int) -> Option<(Encoding, int)> {
    if p + 16 <= t.len() && t.subrange(p + 9, p + 16) == spec_tag_png() {
        Some((Encoding::Png, p + 16))
    } else if p + 20 <= t.len() && t.subrange(p + 9, p + 20) == spec_tag_jpg() {
        Some((Encoding::Jpg, p + 20))
    } else if p + 20 <= t.len() && t.subrange(p + 9, p + 20) == spec_tag_qoi() {
        Some((Encoding::Qoi, p + 20))
    } else {
        None
    }
}

/// Whether a byte survives stripping of whitespace and semicolons from a
/// base64 body.
pub open spec fn spec_keep_b64(b: u8) -> bool {
    !(b == 9 || b == 10 || b == 13 || b == 32 || b == 59)
}

/// A base64 body with whitespace and semicolons stripped.
pub open spec fn spec_stripped(s: Seq<u8>) -> Seq<u8>
    decreases s.len(),
{
    if s.len() == 0 {
        Seq::<u8>::empty()
    } else {
        spec_stripped(s.drop_last()) + (if spec_keep_b64(s.last()) {
            seq![s.last()]
        } else {
            Seq::<u8>::empty()
        })
    }
}

/// One thumbnail region starting at tag position `p`: the serialised
/// block its header, base64 body and end marker describe, and the scan
/// position after the region. Undefined on a malformed region.
pub open spec fn spec_one_thumb(t: Seq<u8>, p: int, enc: Encoding, after: int) -> Option<
    (Seq<u8>, int),
> {
    let e1 = spec_digit_end(t, after);
    if e1 == after || spec_digits_val(t, after, e1) > 65535 || e1 >= t.len() || t[e1] != 120 {
        None
    } else {
        let w = spec_digits_val(t, after, e1);
        let e2 = spec_digit_end(t, e1 + 1);
        if e2 == e1 + 1 || spec_digits_val(t, e1 + 1, e2) > 65535 {
            None
        } else {
            let h = spec_digits_val(t, e1 + 1, e2);
            match spec_find_from(t, seq![10u8], e2) {
                None => None,
                Some(nl) => match spec_find_from(t, spec_thumb_end_needle(enc), nl + 1) {
                    None => None,
                    Some(q) => {
                        let body = spec_stripped(t.subrange(nl + 1, q));
                        match b64_decode_of(body) {
                            None => None,
                            Some(data) => if data.len() > u32::MAX {
                                None
                            } else {
                                Some(
                                    (
                                        spec_serialised_block(
                                            BlockKind::Thumbnail,
                                            CompressionAlgorithm::NoCompression,
                                            enc,
                                            Checksum::Crc32,
                                            u16_le_bytes(w as u16) + u16_le_bytes(h as u16),
                                            data,
                                            data.len() as u32,
                                        ),
                                        q + spec_thumb_end_needle(enc).len(),
                                    ),
                                )
                            },
                        }
                    },
                },
            }
        }
    }
}

/// Every thumbnail region at or after scan position `c`, serialised in
/// order. Absent tags end the scan; a malformed region leaves the result
/// undefined.
pub open spec fn spec_thumb_sections(t: Seq<u8>, c: int) -> Option<Seq<u8>>
    decreases t.len() - c,
{
    match spec_find_from(t, spec_thumb_needle(), c) {
        None => Some(Seq::<u8>::empty()),
        Some(p) => match spec_tag_at(t, p) {
            None => if c < p + 1 && p + 1 <= t.len() {
                spec_thumb_sections(t, p + 1)
            } else {
                None
            },
            Some(tag) => match spec_one_thumb(t, p, tag.0, tag.1) {
                None => None,
                Some(bn) => if c < bn.1 && bn.1 <= t.len() {
                    match spec_thumb_sections(t, bn.1) {
                        None => None,
                        Some(rest) => Some(bn.0 + rest),
                    }
                } else {
                    None
                },
            },
        },
    }
}

/// Which thumbnail begin tag stands at `p` in the text.
fn tag_at(t: &[u8], p: usize) -> (r: Option<(Encoding, usize)>)
    requires
        p <= t.len(),
    ensures
        match r {
            Some(x) => spec_tag_at(t@, p as int) == Some((x.0, x.1 as int)) && p < x.1 <= t@.len(),
            None => spec_tag_at(t@, p as int) is None,
        },
{
    let tag_png: [u8; 7] = [32u8, 98u8, 101u8, 103u8, 105u8, 110u8, 32u8];
    let tag_jpg: [u8; 11] = [95u8, 74u8, 80u8, 71u8, 32u8, 98u8, 101u8, 103u8, 105u8, 110u8, 32u8];
    let tag_qoi: [u8; 11] = [95u8, 81u8, 79u8, 73u8, 32u8, 98u8, 101u8, 103u8, 105u8, 110u8, 32u8];
    proof {
        assert(tag_png@ =~= spec_tag_png());
        assert(tag_jpg@ =~= spec_tag_jpg());
        assert(tag_qoi@ =~= spec_tag_qoi());
    }
    if t.len() - p >= 16 && slice_eq_at(t, p + 9, tag_png.as_slice()) {
        Some((Encoding::Png, p + 16))
    } else if t.len() - p >= 20 && slice_eq_at(t, p + 9, tag_jpg.as_slice()) {
        Some((Encoding::Jpg, p + 20))
    } else if t.len() - p >= 20 && slice_eq_at(t, p + 9, tag_qoi.as_slice()) {
        Some((Encoding::Qoi, p + 20))
    } else {
        None
    }
}

/// The end marker of a thumbnail region, by encoding.
fn thumb_end_needle(enc: Encoding) -> (r: Vec<u8>)
    ensures
        r@ == spec_thumb_end_needle(enc),
{
    match enc {
        Encoding::Png => {
            let m: [u8; 15] = [59u8, 32u8, 116u8, 104u8, 117u8, 109u8, 98u8, 110u8, 97u8, 105u8, 108u8, 32u8, 101u8, 110u8, 100u8];
            proof {
                assert(m@ =~= spec_thumb_end_needle(enc));
            }
            slice_to_vec(m.as_slice())
        },
        Encoding::Jpg => {
            let m: [u8; 19] = [59u8, 32u8, 116u8, 104u8, 117u8, 109u8, 98u8, 110u8, 97u8, 105u8, 108u8, 95u8, 74u8, 80u8, 71u8, 32u8, 101u8, 110u8, 100u8];
            proof {
                assert(m@ =~= spec_thumb_end_needle(enc));
            }
            slice_to_vec(m.as_slice())
        },
        Encoding::Qoi => {
            let m: [u8; 19] = [59u8, 32u8, 116u8, 104u8, 117u8, 109u8, 98u8, 110u8, 97u8, 105u8, 108u8, 95u8, 81u8, 79u8, 73u8, 32u8, 101u8, 110u8, 100u8];
            proof {
                assert(m@ =~= spec_thumb_end_needle(enc));
            }
            slice_to_vec(m.as_slice())
        },
        _ => {
            let r: Vec<u8> = Vec::new();
            proof {
                assert(r@ =~= spec_thumb_end_needle(enc));
            }
            r
        },
    }
}

/// Copies `t[a..b]` with whitespace and semicolons stripped.
fn strip_b64(t: &[u8], a: usize, b: usize) -> (r: Vec<u8>)
    requires
        a <= b <= t.len(),
    ensures
        r@ == spec_stripped(t@.subrange(a as int, b as int)),
{
    let mut r: Vec<u8> = Vec::new();
    let mut j: usize = a;
    proof {
        assert(t@.subrange(a as int, a as int) =~= Seq::<u8>::empty());
    }
    while j < b
        invariant
            a <= j <= b <= t.len(),
            r@ == spec_stripped(t@.subrange(a as int, j as int)),
        decreases b - j,
    {
        let x = t[j];
        let ghost before = r@;
        if !(x == 9 || x == 10 || x == 13 || x == 32 || x == 59) {
            r.push(x);
        }
        proof {
            assert(t@.subrange(a as int, j + 1 as int).drop_last() =~= t@.subrange(
                a as int,
                j as int,
            ));
            assert(t@.subrange(a as int, j + 1 as int).last() == t@[j as int]);
            assert(r@ =~= spec_stripped(t@.subrange(a as int, j + 1 as int)));
        }
        j = j + 1;
    }
    r
}

/// Appends every thumbnail region of the text as an uncompressed
/// thumbnail block, in order of appearance.
#[verifier::rlimit(100)]
fn emit_thumbnails(t: &[u8], out: &mut Vec<u8>) -> (r: Result<(), BinaryGcodeError>)
    ensures
        r is Ok ==> (spec_thumb_sections(t@, 0) matches Some(bs) && final(out)@ == old(out)@
            + bs),
        spec_thumb_sections(t@, 0) is Some ==> r is Ok,
{
    let ghost base = old(out)@;
    let mut c: usize = 0;
    let mut done = false;
    while !done
        invariant
            c <= t.len(),
            out@.len() >= base.len(),
            out@.subrange(0, base.len() as int) == base,
            match spec_thumb_sections(t@, c as int) {
                Some(rest) => spec_thumb_sections(t@, 0) == Some(
                    out@.skip(base.len() as int) + rest,
                ),
                None => spec_thumb_sections(t@, 0) is None,
            },
            done ==> spec_thumb_sections(t@, c as int) == Some(Seq::<u8>::empty()),
        decreases t.len() - c + (if done { 0int } else { 1int }),
    {
        let thumb: [u8; 9] = [116u8, 104u8, 117u8, 109u8, 98u8, 110u8, 97u8, 105u8, 108u8];
        proof {
            assert(thumb@ =~= spec_thumb_needle());
        }
        match find_from(t, thumb.as_slice(), c) {
            None => {
                done = true;
            },
            Some(p) => {
                match tag_at(t, p) {
                    None => {
                        c = p + 1;
                    },
                    Some((enc, after)) => {
                        let (e1, wopt) = parse_u16_digits(t, after);
                        if e1 == after {
                            proof {
                                assert(spec_thumb_sections(t@, c as int) is None);
                            }
                            return Err(BinaryGcodeError::SerialiseError);
                        }
                        let w = match wopt {
                            Some(w) => w,
                            None => {
                                proof {
                                    assert(spec_thumb_sections(t@, c as int) is None);
                                }
                                return Err(BinaryGcodeError::SerialiseError);
                            },
                        };
                        if e1 >= t.len() || t[e1] != 120 {
                            proof {
                                assert(spec_thumb_sections(t@, c as int) is None);
                            }
                            return Err(BinaryGcodeError::SerialiseError);
                        }
                        let (e2, hopt) = parse_u16_digits(t, e1 + 1);
                        if e2 == e1 + 1 {
                            proof {
                                assert(spec_thumb_sections(t@, c as int) is None);
                            }
                            return Err(BinaryGcodeError::SerialiseError);
                        }
                        let h = match hopt {
                            Some(h) => h,
                            None => {
                                proof {
                                    assert(spec_thumb_sections(t@, c as int) is None);
                                }
                                return Err(BinaryGcodeError::SerialiseError);
                            },
                        };
                        let nl: [u8; 1] = [10u8];
                        proof {
                            assert(nl@ =~= seq![10u8]);
                        }
                        let nlp = match find_from(t, nl.as_slice(), e2) {
                            Some(nlp) => nlp,
                            None => {
                                proof {
                                    assert(spec_thumb_sections(t@, c as int) is None);
                                }
                                return Err(BinaryGcodeError::SerialiseError);
                            },
                        };
                        let endtag = thumb_end_needle(enc);
                        let q = match find_from(t, endtag.as_slice(), nlp + 1) {
                            Some(q) => q,
                            None => {
                                proof {
                                    assert(spec_thumb_sections(t@, c as int) is None);
                                }
                                return Err(BinaryGcodeError::SerialiseError);
                            },
                        };
                        let body = strip_b64(t, nlp + 1, q);
                        let data = match b64_decode(body.as_slice()) {
                            Some(d) => d,
                            None => {
                                proof {
                                    assert(spec_thumb_sections(t@, c as int) is None);
                                }
                                return Err(BinaryGcodeError::SerialiseError);
                            },
                        };
                        if data.len() > u32::MAX as usize {
                            proof {
                                assert(spec_thumb_sections(t@, c as int) is None);
                            }
                            return Err(BinaryGcodeError::SerialiseError);
                        }
                        let params: [u8; 4] = [
                            (w % 256) as u8,
                            (w / 256) as u8,
                            (h % 256) as u8,
                            (h / 256) as u8,
                        ];
                        proof {
                            assert(params@ =~= crate::common::u16_le_bytes(w)
                                + crate::common::u16_le_bytes(h));
                        }
                        match serialise_block(
                            BlockKind::Thumbnail,
                            CompressionAlgorithm::NoCompression,
                            enc,
                            Checksum::Crc32,
                            params.as_slice(),
                            data.as_slice(),
                        ) {
                            Ok(bl) => {
                                let ghost prev = out@;
                                extend_with(out, bl);
                                proof {
                                    assert(out@.subrange(0, base.len() as int) =~= base);
                                    assert(out@.skip(base.len() as int) =~= prev.skip(
                                        base.len() as int,
                                    ) + out@.subrange(prev.len() as int, out@.len() as int));
                                }
                                c = q + endtag.len();
                            },
                            Err(e) => {
                                proof {
                                    assert(false);
                                }
                                return Err(e);
                            },
                        }
                    },
                }
            },
        }
    }
    proof {
        assert(out@.skip(base.len() as int) + Seq::<u8>::empty() =~= out@.skip(
            base.len() as int,
        ));
        assert(final(out)@ =~= old(out)@ + final(out)@.skip(base.len() as int));
    }
    Ok(())
}

/// The bytes of `"M73 P0"`.
pub open spec fn spec_m73_start_needle() -> Seq<u8> {
    seq![77u8, 55u8, 51u8, 32u8, 80u8, 48u8]
}

/// The bytes of `"M73 P100 R0\n"`.
pub open spec fn spec_m73_end_needle() -> Seq<u8> {
    seq![77u8, 55u8, 51u8, 32u8, 80u8, 49u8, 48u8, 48u8, 32u8, 82u8, 48u8, 10u8]
}

/// One G-code chunk as a heatshrink-compressed, CRC-framed block; a
/// chunk beyond the sixteen-bit limit has no block.
pub open spec fn spec_gcode_block(chunk: Seq<u8>) -> Option<Seq<u8>> {
    if chunk.len() > 65535 {
        None
    } else {
        Some(
            spec_serialised_block(
                BlockKind::GCode,
                CompressionAlgorithm::Heatshrink11_4,
                Encoding::Ascii,
                Checksum::Crc32,
                Seq::<u8>::empty(),
                shrink_of(chunk, 11, 4),
                chunk.len() as u32,
            ),
        )
    }
}

/// The G-code body split into blocks: bytes accumulate into a chunk,
/// which is flushed as one block at a newline once it holds more than
/// 65435 bytes — or unconditionally at 65535 bytes, so that no chunk
/// ever exceeds the sixteen-bit limit — and once more at the end if
/// anything remains.
pub open spec fn spec_gcode_chunks(g: Seq<u8>, i: int, chunk: Seq<u8>) -> Option<Seq<u8>>
    decreases g.len() - i,
{
    if i < 0 || i >= g.len() {
        if chunk.len() == 0 {
            Some(Seq::<u8>::empty())
        } else {
            spec_gcode_block(chunk)
        }
    } else {
        let chunk2 = chunk.push(g[i]);
        if (chunk2.len() > 65435 && g[i] == 10) || chunk2.len() >= 65535 {
            match spec_gcode_block(chunk2) {
                None => None,
                Some(b) => match spec_gcode_chunks(g, i + 1, Seq::<u8>::empty()) {
                    None => None,
                    Some(rest) => Some(b + rest),
                },
            }
        } else {
            spec_gcode_chunks(g, i + 1, chunk2)
        }
    }
}

/// The G-code section: the region from `"M73 P0"` through
/// `"M73 P100 R0\n"` inclusive, in bounded chunks; nothing when either
/// marker is absent.
pub open spec fn spec_gcode_section(t: Seq<u8>) -> Option<Seq<u8>> {
    match spec_find_from(t, spec_m73_start_needle(), 0) {
        None => Some(Seq::<u8>::empty()),
        Some(p) => match spec_find_from(t, spec_m73_end_needle(), p) {
            None => Some(Seq::<u8>::empty()),
            Some(e) => spec_gcode_chunks(t.subrange(p, e + 12), 0, Seq::<u8>::empty()),
        },
    }
}

/// Appends the G-code body of the text as heatshrink-compressed blocks,
/// each of at most 65535 payload bytes. With no G-code region there is
/// nothing to compress and the call succeeds.
#[verifier::rlimit(100)]
fn emit_gcode(t: &[u8], out: &mut Vec<u8>) -> (r: Result<(), BinaryGcodeError>)
    ensures
        r is Ok ==> (spec_gcode_section(t@) matches Some(bs) && final(out)@ == old(out)@ + bs),
        spec_find_from(t@, spec_m73_start_needle(), 0) is None ==> r is Ok,
{
    let ms: [u8; 6] = [77u8, 55u8, 51u8, 32u8, 80u8, 48u8];
    let me: [u8; 12] = [77u8, 55u8, 51u8, 32u8, 80u8, 49u8, 48u8, 48u8, 32u8, 82u8, 48u8, 10u8];
    proof {
        assert(ms@ =~= spec_m73_start_needle());
        assert(me@ =~= spec_m73_end_needle());
    }
    let p = match find_from(t, ms.as_slice(), 0) {
        Some(p) => p,
        None => {
            proof {
                assert(final(out)@ =~= old(out)@ + Seq::<u8>::empty());
            }
            return Ok(());
        },
    };
    let e = match find_from(t, me.as_slice(), p) {
        Some(e) => e,
        None => {
            proof {
                assert(final(out)@ =~= old(out)@ + Seq::<u8>::empty());
            }
            return Ok(());
        },
    };
    let tl: usize = t.len();
    proof {
        assert(e + 12 <= tl);
    }
    let g: &[u8] = &t[p..e + 12];
    let ghost base = old(out)@;
    let mut chunk: Vec<u8> = Vec::new();
    let mut i: usize = 0;
    while i < g.len()
        invariant
            i <= g.len(),
            out@.len() >= base.len(),
            out@.subrange(0, base.len() as int) == base,
            chunk@.len() <= i,
            chunk@.len() <= 65534,
            spec_find_from(t@, spec_m73_start_needle(), 0) is Some,
            match spec_gcode_chunks(g@, i as int, chunk@) {
                Some(rest) => spec_gcode_chunks(g@, 0, Seq::<u8>::empty()) == Some(
                    out@.skip(base.len() as int) + rest,
                ),
                None => spec_gcode_chunks(g@, 0, Seq::<u8>::empty()) is None,
            },
        decreases g.len() - i,
    {
        let bbyte = g[i];
        chunk.push(bbyte);
        if (chunk.len() > 65435 && bbyte == 10) || chunk.len() >= 65535 {
            let nop: Vec<u8> = Vec::new();
            match serialise_block(
                BlockKind::GCode,
                CompressionAlgorithm::Heatshrink11_4,
                Encoding::Ascii,
                Checksum::Crc32,
                nop.as_slice(),
                chunk.as_slice(),
            ) {
                Ok(bl) => {
                    let ghost prev = out@;
                    extend_with(out, bl);
                    proof {
                        assert(out@.subrange(0, base.len() as int) =~= base);
                        assert(out@.skip(base.len() as int) =~= prev.skip(base.len() as int)
                            + out@.subrange(prev.len() as int, out@.len() as int));
                    }
                    chunk = Vec::new();
                },
                Err(e) => {
                    return Err(e);
                },
            }
        }
        i = i + 1;
    }
    if chunk.len() > 0 {
        let nop: Vec<u8> = Vec::new();
        match serialise_block(
            BlockKind::GCode,
            CompressionAlgorithm::Heatshrink11_4,
            Encoding::Ascii,
            Checksum::Crc32,
            nop.as_slice(),
            chunk.as_slice(),
        ) {
            Ok(bl) => {
                let ghost prev = out@;
                extend_with(out, bl);
                proof {
                    assert(out@.skip(base.len() as int) =~= prev.skip(base.len() as int)
                        + out@.subrange(prev.len() as int, out@.len() as int));
                    assert(out@.skip(base.len() as int) + Seq::<u8>::empty() =~= out@.skip(
                        base.len() as int,
                    ));
                    assert(final(out)@ =~= old(out)@ + final(out)@.skip(base.len() as int));
                }
                Ok(())
            },
            Err(e) => Err(e),
        }
    } else {
        proof {
            assert(out@.skip(base.len() as int) + Seq::<u8>::empty() =~= out@.skip(
                base.len() as int,
            ));
            assert(final(out)@ =~= old(out)@ + final(out)@.skip(base.len() as int));
        }
        Ok(())
    }
}

/// The whole binary stream the canonical text converts to: a version-one
/// CRC-framed file header, then the file, printer and slicer metadata
/// sections, the thumbnails, and the chunked G-code body.
pub open spec fn spec_ascii_to_binary(t: Seq<u8>) -> Option<Seq<u8>> {
    match spec_file_meta_section(t) {
        None => None,
        Some(fm) => match spec_printer_section(t) {
            None => None,
            Some(pr) => match spec_slicer_section(t) {
                None => None,
                Some(sl) => match spec_thumb_sections(t, 0) {
                    None => None,
                    Some(th) => match spec_gcode_section(t) {
                        None => None,
                        Some(gc) => Some(
                            spec_serialised_file_header(1, Checksum::Crc32) + fm + pr + sl + th
                                + gc,
                        ),
                    },
                },
            },
        },
    }
}

/// Converts canonical textual G-code into a framed binary stream: a
/// version-one file header with CRC framing, then the metadata sections,
/// thumbnails and chunked G-code that the text holds. When the binary
/// form is defined and the text has no G-code region — so nothing calls
/// the heatshrink pump — the call succeeds.
pub fn ascii_to_binary(ascii: &[u8]) -> (r: Result<Vec<u8>, BinaryGcodeError>)
    ensures
        r matches Ok(out) ==> spec_ascii_to_binary(ascii@) == Some(out@),
        spec_ascii_to_binary(ascii@) is Some && spec_find_from(
            ascii@,
            spec_m73_start_needle(),
            0,
        ) is None ==> r is Ok,
{
    let mut binary = serialise_file_header(1, Checksum::Crc32);
    match emit_file_meta(ascii, &mut binary) {
        Ok(_) => {},
        Err(e) => {
            proof {
                assert(spec_ascii_to_binary(ascii@) is None);
            }
            return Err(e);
        },
    }
    match emit_printer(ascii, &mut binary) {
        Ok(_) => {},
        Err(e) => {
            proof {
                assert(spec_ascii_to_binary(ascii@) is None);
            }
            return Err(e);
        },
    }
    match emit_slicer(ascii, &mut binary) {
        Ok(_) => {},
        Err(e) => {
            proof {
                assert(spec_ascii_to_binary(ascii@) is None);
            }
            return Err(e);
        },
    }
    match emit_thumbnails(ascii, &mut binary) {
        Ok(_) => {},
        Err(e) => {
            proof {
                assert(spec_ascii_to_binary(ascii@) is None);
            }
            return Err(e);
        },
    }
    match emit_gcode(ascii, &mut binary) {
        Ok(_) => {},
        Err(e) => {
            return Err(e);
        },
    }
    proof {
        assert(spec_ascii_to_binary(ascii@) == Some(binary@)) by {
            assert(spec_ascii_to_binary(ascii@) matches Some(b2) ==> b2 =~= binary@);
        }
    }
    Ok(binary)
}

} // verus!
