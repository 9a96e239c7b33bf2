//! The decompressor and compressor façade over the two external codecs:
//! zlib/deflate (miniz_oxide) and heatshrink (embedded-heatshrink). The
//! heatshrink codecs are driven through their sink/poll/finish pump
//! protocol by verified loops; only the individual calls are trusted.

use vstd::prelude::*;

use embedded_heatshrink::{
    HeatshrinkDecoder, HeatshrinkEncoder, HSDFinishRes, HSDPollRes, HSDSinkRes, HSEFinishRes,
    HSEPollRes, HSESinkRes,
};

use crate::common::{BinaryGcodeError, CompressionAlgorithm};

verus! {

#[verifier::external_type_specification]
#[verifier::external_body]
pub struct ExHeatshrinkDecoder(HeatshrinkDecoder);

#[verifier::external_type_specification]
#[verifier::external_body]
pub struct ExHeatshrinkEncoder(HeatshrinkEncoder);

/// The bytes a heatshrink decoder has accepted through `sink` so far.
pub uninterp spec fn hsd_sunk(d: HeatshrinkDecoder) -> Seq<u8>;

/// The bytes a heatshrink decoder has handed out through `poll` so far.
pub uninterp spec fn hsd_emitted(d: HeatshrinkDecoder) -> Seq<u8>;

/// The window parameter a heatshrink decoder was created with.
pub uninterp spec fn hsd_window(d: HeatshrinkDecoder) -> u8;

/// The lookahead parameter a heatshrink decoder was created with.
pub uninterp spec fn hsd_lookahead(d: HeatshrinkDecoder) -> u8;

/// The bytes a heatshrink encoder has accepted through `sink` so far.
pub uninterp spec fn hse_sunk(e: HeatshrinkEncoder) -> Seq<u8>;

/// The bytes a heatshrink encoder has handed out through `poll` so far.
pub uninterp spec fn hse_emitted(e: HeatshrinkEncoder) -> Seq<u8>;

/// The window parameter a heatshrink encoder was created with.
pub uninterp spec fn hse_window(e: HeatshrinkEncoder) -> u8;

/// The lookahead parameter a heatshrink encoder was created with.
pub uninterp spec fn hse_lookahead(e: HeatshrinkEncoder) -> u8;

/// What heatshrink decoding with the given parameters makes of a byte
/// sequence: the total output of a decoder that sank exactly those bytes.
pub uninterp spec fn unshrink_of(input: Seq<u8>, window: u8, lookahead: u8) -> Seq<u8>;

/// What heatshrink encoding with the given parameters makes of a byte
/// sequence: the total output of an encoder that sank exactly those bytes.
pub uninterp spec fn shrink_of(input: Seq<u8>, window: u8, lookahead: u8) -> Seq<u8>;

/// What `miniz_oxide` zlib decompression returns for a byte sequence,
/// when it succeeds.
pub uninterp spec fn inflate_of(s: Seq<u8>) -> Option<Seq<u8>>;

/// What `miniz_oxide` zlib compression at the given level returns for a
/// byte sequence.
pub uninterp spec fn deflate_of(s: Seq<u8>, level: u8) -> Seq<u8>;

/// The outcome of one `sink` call.
pub enum SinkStatus {
    Sunk(usize),
    Full,
    Failed,
}

/// The outcome of one `poll` call.
pub enum PollStatus {
    Empty(usize),
    More(usize),
    Failed,
}

/// The outcome of one `finish` call.
pub enum FinishStatus {
    Done,
    More,
    Failed,
}

/// Relies on `HeatshrinkDecoder::new`: construction succeeds exactly when
/// the window is 4..=15, the lookahead is 3..window, and the buffer size
/// is nonzero; a fresh decoder has sunk and emitted nothing.
#[verifier::external_body]
fn hsd_new(input_buffer_size: u16, window: u8, lookahead: u8) -> (r: Option<HeatshrinkDecoder>)
    ensures
        (4 <= window <= 15 && 3 <= lookahead < window && input_buffer_size > 0) ==> r is Some,
        r matches Some(d) ==> hsd_sunk(d) == Seq::<u8>::empty() && hsd_emitted(d)
            == Seq::<u8>::empty() && hsd_window(d) == window && hsd_lookahead(d) == lookahead,
{
    HeatshrinkDecoder::new(input_buffer_size, window, lookahead)
}

/// Relies on `HeatshrinkDecoder::sink`: accepts between one byte and the
/// rest of a nonempty input slice, or reports a full internal buffer.
#[verifier::external_body]
fn hsd_sink(d: &mut HeatshrinkDecoder, input: &[u8], from: usize) -> (r: SinkStatus)
    requires
        from < input.len(),
    ensures
        hsd_emitted(*final(d)) == hsd_emitted(*old(d)),
        hsd_window(*final(d)) == hsd_window(*old(d)),
        hsd_lookahead(*final(d)) == hsd_lookahead(*old(d)),
        match r {
            SinkStatus::Sunk(sz) => 1 <= sz <= input.len() - from && hsd_sunk(*final(d))
                == hsd_sunk(*old(d)) + input@.subrange(from as int, from + sz),
            SinkStatus::Full => hsd_sunk(*final(d)) == hsd_sunk(*old(d)),
            SinkStatus::Failed => true,
        },
{
    match d.sink(&input[from..]) {
        HSDSinkRes::Ok(sz) => SinkStatus::Sunk(sz),
        HSDSinkRes::Full => SinkStatus::Full,
        HSDSinkRes::ErrorNull => SinkStatus::Failed,
    }
}

/// Relies on `HeatshrinkDecoder::poll`: writes decoded bytes into
/// `out[start..]`, touching nothing else; `More` means the slice was
/// filled exactly; the written bytes extend what the decoder has emitted.
#[verifier::external_body]
fn hsd_poll(d: &mut HeatshrinkDecoder, out: &mut Vec<u8>, start: usize) -> (r: PollStatus)
    requires
        start < old(out).len(),
    ensures
        final(out).len() == old(out).len(),
        hsd_sunk(*final(d)) == hsd_sunk(*old(d)),
        hsd_window(*final(d)) == hsd_window(*old(d)),
        hsd_lookahead(*final(d)) == hsd_lookahead(*old(d)),
        match r {
            PollStatus::Empty(sz) => sz <= old(out).len() - start && final(out)@.subrange(
                0,
                start as int,
            ) == old(out)@.subrange(0, start as int) && final(out)@.skip(start + sz) == old(out)@.skip(start + sz) && hsd_emitted(*final(d)) == hsd_emitted(*old(d)) + final(out)@.subrange(start as int, start + sz),
            PollStatus::More(sz) => start + sz == old(out).len() && final(out)@.subrange(
                0,
                start as int,
            ) == old(out)@.subrange(0, start as int) && hsd_emitted(*final(d)) == hsd_emitted(
                *old(d),
            ) + final(out)@.subrange(start as int, start + sz),
            PollStatus::Failed => true,
        },
{
    match d.poll(&mut out[start..]) {
        HSDPollRes::Empty(sz) => PollStatus::Empty(sz),
        HSDPollRes::More(sz) => PollStatus::More(sz),
        HSDPollRes::ErrorNull => PollStatus::Failed,
        HSDPollRes::ErrorUnknown => PollStatus::Failed,
    }
}

/// Relies on `HeatshrinkDecoder::finish`: neither consumes nor emits;
/// `Done` means decoding is complete and everything decoded has been
/// handed out, so the total emitted is what `unshrink_of` names.
#[verifier::external_body]
fn hsd_finish(d: &mut HeatshrinkDecoder) -> (r: FinishStatus)
    ensures
        hsd_sunk(*final(d)) == hsd_sunk(*old(d)),
        hsd_emitted(*final(d)) == hsd_emitted(*old(d)),
        hsd_window(*final(d)) == hsd_window(*old(d)),
        hsd_lookahead(*final(d)) == hsd_lookahead(*old(d)),
        r is Done ==> hsd_emitted(*final(d)) == unshrink_of(
            hsd_sunk(*final(d)),
            hsd_window(*final(d)),
            hsd_lookahead(*final(d)),
        ),
{
    match d.finish() {
        HSDFinishRes::Done => FinishStatus::Done,
        HSDFinishRes::More => FinishStatus::More,
        HSDFinishRes::ErrorNull => FinishStatus::Failed,
    }
}

/// Relies on `HeatshrinkEncoder::new`: construction succeeds exactly when
/// the window is 4..=15 and the lookahead is 3..window; a fresh encoder
/// has sunk and emitted nothing.
#[verifier::external_body]
fn hse_new(window: u8, lookahead: u8) -> (r: Option<HeatshrinkEncoder>)
    ensures
        (4 <= window <= 15 && 3 <= lookahead < window) ==> r is Some,
        r matches Some(e) ==> hse_sunk(e) == Seq::<u8>::empty() && hse_emitted(e)
            == Seq::<u8>::empty() && hse_window(e) == window && hse_lookahead(e) == lookahead,
{
    HeatshrinkEncoder::new(window, lookahead)
}

/// Relies on `HeatshrinkEncoder::sink`: accepts a prefix of the remaining
/// input, possibly empty when the window buffer is full.
#[verifier::external_body]
fn hse_sink(e: &mut HeatshrinkEncoder, input: &[u8], from: usize) -> (r: SinkStatus)
    requires
        from < input.len(),
    ensures
        hse_emitted(*final(e)) == hse_emitted(*old(e)),
        hse_window(*final(e)) == hse_window(*old(e)),
        hse_lookahead(*final(e)) == hse_lookahead(*old(e)),
        match r {
            SinkStatus::Sunk(sz) => sz <= input.len() - from && hse_sunk(*final(e)) == hse_sunk(
                *old(e),
            ) + input@.subrange(from as int, from + sz),
            SinkStatus::Full => hse_sunk(*final(e)) == hse_sunk(*old(e)),
            SinkStatus::Failed => true,
        },
{
    match e.sink(&input[from..]) {
        HSESinkRes::Ok(sz) => SinkStatus::Sunk(sz),
        HSESinkRes::ErrorNull => SinkStatus::Failed,
        HSESinkRes::ErrorMisuse => SinkStatus::Failed,
    }
}

/// Relies on `HeatshrinkEncoder::poll`: writes encoded bytes into
/// `out[start..]`, touching nothing else; `More` means the slice was
/// filled exactly; the written bytes extend what the encoder has emitted.
#[verifier::external_body]
fn hse_poll(e: &mut HeatshrinkEncoder, out: &mut Vec<u8>, start: usize) -> (r: PollStatus)
    requires
        start < old(out).len(),
    ensures
        final(out).len() == old(out).len(),
        hse_sunk(*final(e)) == hse_sunk(*old(e)),
        hse_window(*final(e)) == hse_window(*old(e)),
        hse_lookahead(*final(e)) == hse_lookahead(*old(e)),
        match r {
            PollStatus::Empty(sz) => sz <= old(out).len() - start && final(out)@.subrange(
                0,
                start as int,
            ) == old(out)@.subrange(0, start as int) && final(out)@.skip(start + sz) == old(out)@.skip(start + sz) && hse_emitted(*final(e)) == hse_emitted(*old(e)) + final(out)@.subrange(start as int, start + sz),
            PollStatus::More(sz) => start + sz == old(out).len() && final(out)@.subrange(
                0,
                start as int,
            ) == old(out)@.subrange(0, start as int) && hse_emitted(*final(e)) == hse_emitted(
                *old(e),
            ) + final(out)@.subrange(start as int, start + sz),
            PollStatus::Failed => true,
        },
{
    match e.poll(&mut out[start..]) {
        HSEPollRes::Empty(sz) => PollStatus::Empty(sz),
        HSEPollRes::More(sz) => PollStatus::More(sz),
        HSEPollRes::ErrorNull => PollStatus::Failed,
        HSEPollRes::ErrorMisuse => PollStatus::Failed,
    }
}

/// Relies on `HeatshrinkEncoder::finish`: neither consumes nor emits;
/// `Done` means encoding is complete and everything encoded has been
/// handed out, so the total emitted is what `shrink_of` names, and
/// heatshrink is lossless: decoding that output with the same parameters
/// gives back exactly the bytes that were sunk.
#[verifier::external_body]
fn hse_finish(e: &mut HeatshrinkEncoder) -> (r: FinishStatus)
    ensures
        hse_sunk(*final(e)) == hse_sunk(*old(e)),
        hse_emitted(*final(e)) == hse_emitted(*old(e)),
        hse_window(*final(e)) == hse_window(*old(e)),
        hse_lookahead(*final(e)) == hse_lookahead(*old(e)),
        r is Done ==> hse_emitted(*final(e)) == shrink_of(
            hse_sunk(*final(e)),
            hse_window(*final(e)),
            hse_lookahead(*final(e)),
        ) && unshrink_of(
            hse_emitted(*final(e)),
            hse_window(*final(e)),
            hse_lookahead(*final(e)),
        ) == hse_sunk(*final(e)),
{
    match e.finish() {
        HSEFinishRes::Done => FinishStatus::Done,
        HSEFinishRes::More => FinishStatus::More,
        HSEFinishRes::ErrorNull => FinishStatus::Failed,
    }
}

/// Relies on `miniz_oxide::deflate::compress_to_vec_zlib`: produces a
/// zlib stream that decompresses back to exactly the input.
#[verifier::external_body]
fn deflate_compress(input: &[u8], level: u8) -> (r: Vec<u8>)
    ensures
        r@ == deflate_of(input@, level),
        inflate_of(r@) == Some(input@),
{
    miniz_oxide::deflate::compress_to_vec_zlib(input, level)
}

/// Relies on `miniz_oxide::inflate::decompress_to_vec_zlib`: returns the
/// decompressed bytes exactly when the input is a valid zlib stream.
#[verifier::external_body]
fn deflate_decompress(input: &[u8]) -> (r: Option<Vec<u8>>)
    ensures
        match r {
            Some(v) => inflate_of(input@) == Some(v@),
            None => inflate_of(input@) is None,
        },
{
    match miniz_oxide::inflate::decompress_to_vec_zlib(input) {
        Ok(v) => Some(v),
        Err(_) => None,
    }
}

/// Polls the decoder until it has nothing more to hand out or the output
/// is full, keeping `out[..polled]` equal to what the decoder emitted.
fn hsd_drain(d: &mut HeatshrinkDecoder, out: &mut Vec<u8>, polled: &mut usize) -> (ok: bool)
    requires
        *old(polled) <= old(out).len(),
        hsd_emitted(*old(d)) == old(out)@.take(*old(polled) as int),
    ensures
        final(out).len() == old(out).len(),
        *final(polled) <= final(out).len(),
        hsd_sunk(*final(d)) == hsd_sunk(*old(d)),
        hsd_window(*final(d)) == hsd_window(*old(d)),
        hsd_lookahead(*final(d)) == hsd_lookahead(*old(d)),
        ok ==> hsd_emitted(*final(d)) == final(out)@.take(*final(polled) as int),
{
    let mut done = false;
    while !done
        invariant
            *polled <= out.len(),
            out.len() == old(out).len(),
            hsd_sunk(*d) == hsd_sunk(*old(d)),
            hsd_window(*d) == hsd_window(*old(d)),
            hsd_lookahead(*d) == hsd_lookahead(*old(d)),
            hsd_emitted(*d) == out@.take(*polled as int),
        decreases out.len() - *polled + (if done { 0int } else { 1int }),
    {
        if *polled == out.len() {
            done = true;
        } else {
            let ghost prev_out = out@;
            let ghost prev_polled = *polled as int;
            match hsd_poll(d, out, *polled) {
                PollStatus::Empty(sz) => {
                    proof {
                        lemma_take_extend(prev_out, out@, prev_polled, sz as int);
                    }
                    *polled = *polled + sz;
                    if sz == 0 {
                        done = true;
                    }
                },
                PollStatus::More(sz) => {
                    proof {
                        lemma_take_extend(prev_out, out@, prev_polled, sz as int);
                    }
                    *polled = *polled + sz;
                },
                PollStatus::Failed => {
                    return false;
                },
            }
        }
    }
    true
}

/// A prefix kept and a written stretch appended make the longer prefix.
proof fn lemma_take_extend(prev: Seq<u8>, cur: Seq<u8>, at: int, sz: int)
    requires
        0 <= at,
        0 <= sz,
        at + sz <= cur.len(),
        cur.len() == prev.len(),
        cur.subrange(0, at) == prev.subrange(0, at),
    ensures
        prev.take(at) + cur.subrange(at, at + sz) == cur.take(at + sz),
{
    assert(prev.take(at) + cur.subrange(at, at + sz) =~= cur.take(at + sz));
}

/// Decompresses a heatshrink stream by driving the decoder's
/// sink/poll/finish pump, into exactly `uncompressed_len` bytes. On
/// success the result is what heatshrink decoding makes of the input; a
/// pump protocol failure or a different output length is an error.
pub fn unshrink(input: &[u8], uncompressed_len: usize, window: u8, lookahead: u8) -> (r: Result<
    Vec<u8>,
    BinaryGcodeError,
>)
    requires
        4 <= window <= 15,
        3 <= lookahead < window,
    ensures
        r matches Ok(v) ==> v@.len() == uncompressed_len && v@ == unshrink_of(
            input@,
            window,
            lookahead,
        ),
{
    let buf_size: u16 = if input.len() == 0 {
        1
    } else if input.len() > 65535 {
        65535
    } else {
        input.len() as u16
    };
    let mut decoder = match hsd_new(buf_size, window, lookahead) {
        Some(d) => d,
        None => {
            return Err(BinaryGcodeError::HeatshrinkError);
        },
    };
    let mut out: Vec<u8> = vec![0u8; uncompressed_len];
    let mut sunk: usize = 0;
    let mut polled: usize = 0;
    proof {
        assert(hsd_emitted(decoder) =~= out@.take(0));
        assert(hsd_sunk(decoder) =~= input@.take(0));
    }
    while sunk < input.len()
        invariant
            sunk <= input.len(),
            polled <= out.len(),
            out.len() == uncompressed_len,
            hsd_sunk(decoder) == input@.take(sunk as int),
            hsd_emitted(decoder) == out@.take(polled as int),
            hsd_window(decoder) == window,
            hsd_lookahead(decoder) == lookahead,
        decreases input.len() - sunk,
    {
        match hsd_sink(&mut decoder, input, sunk) {
            SinkStatus::Sunk(sz) => {
                proof {
                    assert(input@.take(sunk as int) + input@.subrange(sunk as int, sunk + sz)
                        =~= input@.take(sunk + sz));
                }
                sunk = sunk + sz;
            },
            SinkStatus::Full => {
                return Err(BinaryGcodeError::HeatshrinkError);
            },
            SinkStatus::Failed => {
                return Err(BinaryGcodeError::HeatshrinkError);
            },
        }
        if !hsd_drain(&mut decoder, &mut out, &mut polled) {
            return Err(BinaryGcodeError::HeatshrinkError);
        }
    }
    let mut finish_fuel: usize = uncompressed_len;
    if finish_fuel < usize::MAX - 64 {
        finish_fuel = finish_fuel + 64;
    }
    let mut finished = false;
    while !finished
        invariant
            sunk == input.len(),
            polled <= out.len(),
            out.len() == uncompressed_len,
            hsd_sunk(decoder) == input@.take(sunk as int),
            hsd_emitted(decoder) == out@.take(polled as int),
            hsd_window(decoder) == window,
            hsd_lookahead(decoder) == lookahead,
            finished ==> out@.take(polled as int) == unshrink_of(input@, window, lookahead),
        decreases finish_fuel,
    {
        if finish_fuel == 0 {
            return Err(BinaryGcodeError::HeatshrinkError);
        }
        finish_fuel = finish_fuel - 1;
        match hsd_finish(&mut decoder) {
            FinishStatus::Done => {
                proof {
                    assert(input@.take(sunk as int) =~= input@);
                }
                finished = true;
            },
            FinishStatus::More => {
                if polled == out.len() {
                    return Err(BinaryGcodeError::DataLengthMissMatch);
                }
                let ghost prev_out = out@;
                let ghost prev_polled = polled as int;
                match hsd_poll(&mut decoder, &mut out, polled) {
                    PollStatus::Empty(sz) => {
                        proof {
                            lemma_take_extend(prev_out, out@, prev_polled, sz as int);
                        }
                        polled = polled + sz;
                    },
                    PollStatus::More(sz) => {
                        proof {
                            lemma_take_extend(prev_out, out@, prev_polled, sz as int);
                        }
                        polled = polled + sz;
                    },
                    PollStatus::Failed => {
                        return Err(BinaryGcodeError::HeatshrinkError);
                    },
                }
            },
            FinishStatus::Failed => {
                return Err(BinaryGcodeError::HeatshrinkError);
            },
        }
    }
    if polled != uncompressed_len {
        return Err(BinaryGcodeError::DataLengthMissMatch);
    }
    proof {
        assert(out@.take(polled as int) =~= out@);
    }
    Ok(out)
}

/// Polls the encoder until it has nothing more to hand out or the output
/// is full, keeping `out[..polled]` equal to what the encoder emitted.
fn hse_drain(e: &mut HeatshrinkEncoder, out: &mut Vec<u8>, polled: &mut usize) -> (ok: bool)
    requires
        *old(polled) <= old(out).len(),
        hse_emitted(*old(e)) == old(out)@.take(*old(polled) as int),
    ensures
        final(out).len() == old(out).len(),
        *final(polled) <= final(out).len(),
        hse_sunk(*final(e)) == hse_sunk(*old(e)),
        hse_window(*final(e)) == hse_window(*old(e)),
        hse_lookahead(*final(e)) == hse_lookahead(*old(e)),
        ok ==> hse_emitted(*final(e)) == final(out)@.take(*final(polled) as int),
{
    let mut done = false;
    while !done
        invariant
            *polled <= out.len(),
            out.len() == old(out).len(),
            hse_sunk(*e) == hse_sunk(*old(e)),
            hse_window(*e) == hse_window(*old(e)),
            hse_lookahead(*e) == hse_lookahead(*old(e)),
            hse_emitted(*e) == out@.take(*polled as int),
        decreases out.len() - *polled + (if done { 0int } else { 1int }),
    {
        if *polled == out.len() {
            done = true;
        } else {
            let ghost prev_out = out@;
            let ghost prev_polled = *polled as int;
            match hse_poll(e, out, *polled) {
                PollStatus::Empty(sz) => {
                    proof {
                        lemma_take_extend(prev_out, out@, prev_polled, sz as int);
                    }
                    *polled = *polled + sz;
                    done = true;
                },
                PollStatus::More(sz) => {
                    proof {
                        lemma_take_extend(prev_out, out@, prev_polled, sz as int);
                    }
                    *polled = *polled + sz;
                },
                PollStatus::Failed => {
                    return false;
                },
            }
        }
    }
    true
}

/// Compresses bytes by driving the heatshrink encoder's sink/poll/finish
/// pump. On success the result is what heatshrink encoding makes of the
/// input, and decoding it with the same parameters gives the input back.
/// Output larger than twice the input plus a small slack is refused.
pub fn shrink(window: u8, lookahead: u8, input: &[u8]) -> (r: Result<Vec<u8>, BinaryGcodeError>)
    requires
        4 <= window <= 15,
        3 <= lookahead < window,
    ensures
        r matches Ok(c) ==> c@ == shrink_of(input@, window, lookahead) && unshrink_of(
            c@,
            window,
            lookahead,
        ) == input@,
{
    if input.len() > (usize::MAX - 64) / 2 {
        return Err(BinaryGcodeError::SerialiseError);
    }
    let cap: usize = input.len() * 2 + 64;
    let mut fuel: usize = input.len() + 1;
    let mut encoder = match hse_new(window, lookahead) {
        Some(e) => e,
        None => {
            return Err(BinaryGcodeError::HeatshrinkError);
        },
    };
    let mut out: Vec<u8> = vec![0u8; cap];
    let mut sunk: usize = 0;
    let mut polled: usize = 0;
    proof {
        assert(hse_emitted(encoder) =~= out@.take(0));
        assert(hse_sunk(encoder) =~= input@.take(0));
    }
    while sunk < input.len()
        invariant
            sunk <= input.len(),
            polled <= out.len(),
            out.len() == cap,
            hse_sunk(encoder) == input@.take(sunk as int),
            hse_emitted(encoder) == out@.take(polled as int),
            hse_window(encoder) == window,
            hse_lookahead(encoder) == lookahead,
        decreases fuel,
    {
        if fuel == 0 {
            return Err(BinaryGcodeError::HeatshrinkError);
        }
        fuel = fuel - 1;
        match hse_sink(&mut encoder, input, sunk) {
            SinkStatus::Sunk(sz) => {
                proof {
                    assert(input@.take(sunk as int) + input@.subrange(sunk as int, sunk + sz)
                        =~= input@.take(sunk + sz));
                }
                sunk = sunk + sz;
            },
            SinkStatus::Full => {
                return Err(BinaryGcodeError::HeatshrinkError);
            },
            SinkStatus::Failed => {
                return Err(BinaryGcodeError::HeatshrinkError);
            },
        }
        if !hse_drain(&mut encoder, &mut out, &mut polled) {
            return Err(BinaryGcodeError::HeatshrinkError);
        }
    }
    let mut finish_fuel: usize = cap;
    let mut finished = false;
    while !finished
        invariant
            sunk == input.len(),
            polled <= out.len(),
            out.len() == cap,
            hse_sunk(encoder) == input@.take(sunk as int),
            hse_emitted(encoder) == out@.take(polled as int),
            hse_window(encoder) == window,
            hse_lookahead(encoder) == lookahead,
            finished ==> out@.take(polled as int) == shrink_of(input@, window, lookahead)
                && unshrink_of(out@.take(polled as int), window, lookahead) == input@,
        decreases finish_fuel,
    {
        if finish_fuel == 0 {
            return Err(BinaryGcodeError::HeatshrinkError);
        }
        finish_fuel = finish_fuel - 1;
        match hse_finish(&mut encoder) {
            FinishStatus::Done => {
                proof {
                    assert(input@.take(sunk as int) =~= input@);
                }
                finished = true;
            },
            FinishStatus::More => {
                if polled == out.len() {
                    return Err(BinaryGcodeError::SerialiseError);
                }
                let ghost prev_out = out@;
                let ghost prev_polled = polled as int;
                match hse_poll(&mut encoder, &mut out, polled) {
                    PollStatus::Empty(sz) => {
                        proof {
                            lemma_take_extend(prev_out, out@, prev_polled, sz as int);
                        }
                        polled = polled + sz;
                    },
                    PollStatus::More(sz) => {
                        proof {
                            lemma_take_extend(prev_out, out@, prev_polled, sz as int);
                        }
                        polled = polled + sz;
                    },
                    PollStatus::Failed => {
                        return Err(BinaryGcodeError::HeatshrinkError);
                    },
                }
            },
            FinishStatus::Failed => {
                return Err(BinaryGcodeError::HeatshrinkError);
            },
        }
    }
    out.truncate(polled);
    Ok(out)
}

/// Copies a byte slice into a fresh vector.
pub fn slice_to_vec(src: &[u8]) -> (r: Vec<u8>)
    ensures
        r@ == src@,
{
    let mut r: Vec<u8> = Vec::new();
    let mut i: usize = 0;
    while i < src.len()
        invariant
            i <= src.len(),
            r@ == src@.take(i as int),
        decreases src.len() - i,
    {
        r.push(src[i]);
        proof {
            assert(src@.take(i + 1 as int) =~= src@.take(i as int).push(src@[i as int]));
        }
        i = i + 1;
    }
    proof {
        assert(src@.take(src@.len() as int) =~= src@);
    }
    r
}

/// The uniform decompression facade: undoes the given algorithm and
/// demands exactly `expected_len` output bytes. For no compression the
/// input must already have that length; for deflate it succeeds exactly
/// when the input is a valid zlib stream of the right decoded length; for
/// heatshrink a pump failure or a length mismatch is an error.
pub fn decompress_bytes(input: &[u8], expected_len: usize, alg: CompressionAlgorithm) -> (r:
    Result<Vec<u8>, BinaryGcodeError>)
    ensures
        r matches Ok(v) ==> v@.len() == expected_len,
        alg is NoCompression ==> if input@.len() == expected_len {
            (r matches Ok(v) && v@ == input@)
        } else {
            r == Err::<Vec<u8>, BinaryGcodeError>(BinaryGcodeError::DataLengthMissMatch)
        },
        alg is Deflate ==> match inflate_of(input@) {
            Some(x) => if x.len() == expected_len {
                (r matches Ok(v) && v@ == x)
            } else {
                r == Err::<Vec<u8>, BinaryGcodeError>(BinaryGcodeError::DataLengthMissMatch)
            },
            None => r == Err::<Vec<u8>, BinaryGcodeError>(BinaryGcodeError::DeflateError),
        },
        alg is Heatshrink11_4 ==> (r matches Ok(v) ==> v@ == unshrink_of(input@, 11, 4)),
        alg is Heatshrink12_4 ==> (r matches Ok(v) ==> v@ == unshrink_of(input@, 12, 4)),
{
    match alg {
        CompressionAlgorithm::NoCompression => {
            if input.len() == expected_len {
                Ok(slice_to_vec(input))
            } else {
                Err(BinaryGcodeError::DataLengthMissMatch)
            }
        },
        CompressionAlgorithm::Deflate => {
            match deflate_decompress(input) {
                Some(v) => {
                    if v.len() == expected_len {
                        Ok(v)
                    } else {
                        Err(BinaryGcodeError::DataLengthMissMatch)
                    }
                },
                None => Err(BinaryGcodeError::DeflateError),
            }
        },
        CompressionAlgorithm::Heatshrink11_4 => unshrink(input, expected_len, 11, 4),
        CompressionAlgorithm::Heatshrink12_4 => unshrink(input, expected_len, 12, 4),
    }
}

/// The uniform compression facade. For no compression the input is
/// returned as is; deflate always succeeds; for heatshrink the pump can
/// fail, but a successful result always decompresses back to the input.
pub fn compress_bytes(input: &[u8], alg: CompressionAlgorithm) -> (r: Result<
    Vec<u8>,
    BinaryGcodeError,
>)
    ensures
        alg is NoCompression ==> (r matches Ok(c) && c@ == input@),
        alg is Deflate ==> (r matches Ok(c) && c@ == deflate_of(input@, 10) && inflate_of(c@)
            == Some(input@)),
        alg is Heatshrink11_4 ==> (r matches Ok(c) ==> c@ == shrink_of(input@, 11, 4)
            && unshrink_of(c@, 11, 4) == input@),
        alg is Heatshrink12_4 ==> (r matches Ok(c) ==> c@ == shrink_of(input@, 12, 4)
            && unshrink_of(c@, 12, 4) == input@),
{
    match alg {
        CompressionAlgorithm::NoCompression => Ok(slice_to_vec(input)),
        CompressionAlgorithm::Deflate => Ok(deflate_compress(input, 10)),
        CompressionAlgorithm::Heatshrink11_4 => shrink(11, 4, input),
        CompressionAlgorithm::Heatshrink12_4 => shrink(12, 4, input),
    }
}

} // verus!
