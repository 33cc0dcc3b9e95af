//! The wire format of one sensor frame and its decoder.
//!
//! A frame is 32 bytes long: the two marker bytes `0x42 0x4d` followed by
//! fifteen big-endian unsigned 16-bit fields.

use vstd::prelude::*;
use vstd::slice::slice_subrange;

verus! {

/// First byte of the start marker.
pub const MARKER_HIGH: u8 = 0x42;

/// Second byte of the start marker.
pub const MARKER_LOW: u8 = 0x4d;

/// Length of one frame on the wire, marker included.
pub const FRAME_LEN: usize = 32;

/// One decoded sensor frame. Every field is taken from the wire as it is;
/// neither the frame length nor the checksum is held against the content.
#[derive(Clone, Copy, Debug, PartialEq, Eq, Structural)]
pub struct PmsData {
    pub frame_length: u16,
    pub pm1_cf1: u16,
    pub pm2_5_cf1: u16,
    pub pm10_cf1: u16,
    pub pm1_atmo: u16,
    pub pm2_5_atmo: u16,
    pub pm10_atmo: u16,
    pub pm0_3_count: u16,
    pub pm0_5_count: u16,
    pub pm1_0_count: u16,
    pub pm2_5_count: u16,
    pub pm5_0_count: u16,
    pub pm10_0_count: u16,
    pub reserved: u16,
    pub checksum: u16,
}

/// Why the decoder could not take anything from the head of its input.
#[derive(Clone, Copy, Debug, PartialEq, Eq, Structural)]
pub enum ParseError {
    /// The input ends too early to decide. It agrees with a frame as far as
    /// it goes; the number is how many more bytes are needed at least before
    /// another attempt can get further.
    Incomplete(usize),
    /// The input cannot be decoded, whatever bytes may follow it.
    Malformed,
}

/// The big-endian 16-bit value held by the two bytes at `at` and `at + 1`.
pub open spec fn be_u16_at(bytes: Seq<u8>, at: int) -> u16
    recommends
        0 <= at,
        at + 1 < bytes.len(),
{
    (bytes[at] as int * 256 + bytes[at + 1] as int) as u16
}

/// The input agrees with the start marker in each marker position that it has.
/// An input of no bytes, or of the first marker byte alone, does so.
pub open spec fn agrees_with_marker(bytes: Seq<u8>) -> bool {
    &&& bytes.len() >= 1 ==> bytes[0] == MARKER_HIGH
    &&& bytes.len() >= 2 ==> bytes[1] == MARKER_LOW
}

/// The input starts with one whole frame.
pub open spec fn starts_with_frame(bytes: Seq<u8>) -> bool {
    bytes.len() >= FRAME_LEN && agrees_with_marker(bytes)
}

/// The fifteen fields that follow the marker, each read where the wire format
/// puts it.
pub open spec fn frame_fields(bytes: Seq<u8>) -> PmsData
    recommends
        bytes.len() >= FRAME_LEN,
{
    PmsData {
        frame_length: be_u16_at(bytes, 2),
        pm1_cf1: be_u16_at(bytes, 4),
        pm2_5_cf1: be_u16_at(bytes, 6),
        pm10_cf1: be_u16_at(bytes, 8),
        pm1_atmo: be_u16_at(bytes, 10),
        pm2_5_atmo: be_u16_at(bytes, 12),
        pm10_atmo: be_u16_at(bytes, 14),
        pm0_3_count: be_u16_at(bytes, 16),
        pm0_5_count: be_u16_at(bytes, 18),
        pm1_0_count: be_u16_at(bytes, 20),
        pm2_5_count: be_u16_at(bytes, 22),
        pm5_0_count: be_u16_at(bytes, 24),
        pm10_0_count: be_u16_at(bytes, 26),
        reserved: be_u16_at(bytes, 28),
        checksum: be_u16_at(bytes, 30),
    }
}

/// How many bytes are missing from the two-byte unit (the marker or a field)
/// in which an input of `len` bytes ends: two after a whole unit, one in the
/// middle of a unit.
pub open spec fn missing_bytes(len: nat) -> usize {
    (2 - len % 2) as usize
}

/// What decoding one frame from the head of `bytes` yields: the frame and the
/// bytes behind it, or the reason why there is none.
pub open spec fn parse_data_spec(bytes: Seq<u8>) -> Result<(Seq<u8>, PmsData), ParseError> {
    if !agrees_with_marker(bytes) {
        Err(ParseError::Malformed)
    } else if bytes.len() < FRAME_LEN {
        Err(ParseError::Incomplete(missing_bytes(bytes.len())))
    } else {
        Ok((bytes.skip(FRAME_LEN as int), frame_fields(bytes)))
    }
}

/// What one decoding step on `bytes` yields: a frame and the bytes behind it;
/// no frame and the bytes behind the first one, where no frame can start at
/// the head; or the number of bytes to wait for.
pub open spec fn parse_spec(bytes: Seq<u8>) -> Result<(Seq<u8>, Option<PmsData>), ParseError> {
    if !agrees_with_marker(bytes) {
        Ok((bytes.skip(1), None))
    } else if bytes.len() < FRAME_LEN {
        Err(ParseError::Incomplete(missing_bytes(bytes.len())))
    } else {
        Ok((bytes.skip(FRAME_LEN as int), Some(frame_fields(bytes))))
    }
}

/// A decoder's result with the remaining input taken as a sequence of bytes.
pub open spec fn parsed_view<T>(r: Result<(&[u8], T), ParseError>) -> Result<
    (Seq<u8>, T),
    ParseError,
> {
    match r {
        Ok((rest, value)) => Ok((rest@, value)),
        Err(e) => Err(e),
    }
}

/// Reads the big-endian 16-bit value at a fixed offset of the input.
fn read_be_u16(input: &[u8], at: usize) -> (value: u16)
    requires
        at + 1 < input@.len(),
    ensures
        value == be_u16_at(input@, at as int),
{
    let high: u16 = input[at] as u16;
    let low: u16 = input[at + 1] as u16;
    high * 256 + low
}

/// Decodes the frame at the head of `input`.
///
/// Returns the frame and the input behind its 32 bytes. An input that is
/// shorter than a frame and agrees with the marker as far as it goes is
/// `Incomplete`; one that disagrees with the marker is `Malformed`, however
/// short it is. The fields are not validated: each 16-bit value is accepted.
pub fn parse_data(input: &[u8]) -> (r: Result<(&[u8], PmsData), ParseError>)
    ensures
        parsed_view(r) == parse_data_spec(input@),
        r is Ok <==> starts_with_frame(input@),
        r matches Err(ParseError::Malformed) <==> !agrees_with_marker(input@),
{
    let len: usize = input.len();
    if len >= 1 && input[0] != MARKER_HIGH {
        return Err(ParseError::Malformed);
    }
    if len >= 2 && input[1] != MARKER_LOW {
        return Err(ParseError::Malformed);
    }
    if len < FRAME_LEN {
        return Err(ParseError::Incomplete(2 - len % 2));
    }
    let frame = PmsData {
        frame_length: read_be_u16(input, 2),
        pm1_cf1: read_be_u16(input, 4),
        pm2_5_cf1: read_be_u16(input, 6),
        pm10_cf1: read_be_u16(input, 8),
        pm1_atmo: read_be_u16(input, 10),
        pm2_5_atmo: read_be_u16(input, 12),
        pm10_atmo: read_be_u16(input, 14),
        pm0_3_count: read_be_u16(input, 16),
        pm0_5_count: read_be_u16(input, 18),
        pm1_0_count: read_be_u16(input, 20),
        pm2_5_count: read_be_u16(input, 22),
        pm5_0_count: read_be_u16(input, 24),
        pm10_0_count: read_be_u16(input, 26),
        reserved: read_be_u16(input, 28),
        checksum: read_be_u16(input, 30),
    };
    Ok((slice_subrange(input, FRAME_LEN, len), frame))
}

/// One decoding step on a stream that may hold noise between frames.
///
/// Where a frame starts at the head of `input`, returns it with the input
/// behind it. Where the head cannot start a frame, returns no frame and the
/// input behind its first byte, so that the caller can look for the marker one
/// byte further on. Where the input may still become a frame, returns
/// `Incomplete` and takes nothing. The result depends on the bytes of the
/// input alone, and `Malformed` is never returned.
pub fn parse(input: &[u8]) -> (r: Result<(&[u8], Option<PmsData>), ParseError>)
    ensures
        parsed_view(r) == parse_spec(input@),
        r matches Ok((rest, _)) ==> rest@.len() < input@.len() && rest@ == input@.skip(
            input@.len() - rest@.len(),
        ),
        r matches Ok((rest, Some(_))) ==> input@.len() - rest@.len() == FRAME_LEN,
        r matches Ok((rest, None)) ==> input@.len() - rest@.len() == 1,
        r matches Err(e) ==> e == ParseError::Incomplete(missing_bytes(input@.len()))
            && input@.len() < FRAME_LEN,
{
    match parse_data(input) {
        Ok((rest, frame)) => Ok((rest, Some(frame))),
        Err(ParseError::Malformed) => Ok((slice_subrange(input, 1, input.len()), None)),
        Err(e) => Err(e),
    }
}

/// The two bytes that hold a 16-bit value on the wire, high byte first.
pub open spec fn be_bytes(value: u16) -> Seq<u8> {
    seq![(value / 256) as u8, (value % 256) as u8]
}

/// The 32 bytes that stand for a frame on the wire: the marker, then the
/// fifteen fields in their order, each high byte first.
pub open spec fn wire_image(frame: PmsData) -> Seq<u8> {
    seq![MARKER_HIGH, MARKER_LOW] + be_bytes(frame.frame_length) + be_bytes(frame.pm1_cf1)
        + be_bytes(frame.pm2_5_cf1) + be_bytes(frame.pm10_cf1) + be_bytes(frame.pm1_atmo)
        + be_bytes(frame.pm2_5_atmo) + be_bytes(frame.pm10_atmo) + be_bytes(frame.pm0_3_count)
        + be_bytes(frame.pm0_5_count) + be_bytes(frame.pm1_0_count) + be_bytes(frame.pm2_5_count)
        + be_bytes(frame.pm5_0_count) + be_bytes(frame.pm10_0_count) + be_bytes(frame.reserved)
        + be_bytes(frame.checksum)
}

/// Round trip: the wire image of any frame is 32 bytes long, and decoding it
/// with any bytes behind it gives the frame back and leaves those bytes.
pub proof fn lemma_wire_image_decodes(frame: PmsData, behind: Seq<u8>)
    ensures
        wire_image(frame).len() == FRAME_LEN,
        parse_spec(wire_image(frame) + behind) == Ok::<(Seq<u8>, Option<PmsData>), ParseError>(
            (behind, Some(frame)),
        ),
        parse_data_spec(wire_image(frame) + behind) == Ok::<(Seq<u8>, PmsData), ParseError>(
            (behind, frame),
        ),
{
    let image = wire_image(frame);
    let stream = image + behind;
    assert(image.len() == FRAME_LEN);
    assert(stream.skip(FRAME_LEN as int) =~= behind);
    assert(stream[0] == MARKER_HIGH && stream[1] == MARKER_LOW);
    assert(be_u16_at(stream, 2) == frame.frame_length);
    assert(be_u16_at(stream, 4) == frame.pm1_cf1);
    assert(be_u16_at(stream, 6) == frame.pm2_5_cf1);
    assert(be_u16_at(stream, 8) == frame.pm10_cf1);
    assert(be_u16_at(stream, 10) == frame.pm1_atmo);
    assert(be_u16_at(stream, 12) == frame.pm2_5_atmo);
    assert(be_u16_at(stream, 14) == frame.pm10_atmo);
    assert(be_u16_at(stream, 16) == frame.pm0_3_count);
    assert(be_u16_at(stream, 18) == frame.pm0_5_count);
    assert(be_u16_at(stream, 20) == frame.pm1_0_count);
    assert(be_u16_at(stream, 22) == frame.pm2_5_count);
    assert(be_u16_at(stream, 24) == frame.pm5_0_count);
    assert(be_u16_at(stream, 26) == frame.pm10_0_count);
    assert(be_u16_at(stream, 28) == frame.reserved);
    assert(be_u16_at(stream, 30) == frame.checksum);
}

/// One decoding step never takes more than the input holds, and takes the
/// same from the same bytes: its result is a function of the bytes alone.
pub proof fn lemma_step_takes_from_the_front(bytes: Seq<u8>)
    ensures
        parse_spec(bytes) matches Ok((rest, found)) ==> {
            &&& 1 <= bytes.len() - rest.len() <= bytes.len()
            &&& rest == bytes.skip(bytes.len() - rest.len())
            &&& found is Some ==> bytes.len() - rest.len() == FRAME_LEN
            &&& found is None ==> bytes.len() - rest.len() == 1
        },
        parse_spec(bytes) matches Err(e) ==> {
            &&& bytes.len() < FRAME_LEN
            &&& e == ParseError::Incomplete(missing_bytes(bytes.len()))
            &&& 1 <= missing_bytes(bytes.len()) <= 2
        },
{
}

} // verus!
