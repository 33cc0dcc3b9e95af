use nom::branch::alt;
use nom::bytes::streaming::{tag, take};
use nom::combinator;
use nom::number::streaming::be_u16;
use nom::sequence::tuple;
use nom::IResult;
use pms7003::frame::{parse, ParseError, PmsData};

const GOLDEN_PACKET: &[u8] = &[
    0x42, 0x4d, 0x00, 0x1c, 0x00, 0x03, 0x00, 0x04, 0x00, 0x07, 0x00, 0x03, 0x00, 0x04, 0x00,
    0x07, 0x02, 0xd0, 0x00, 0xb8, 0x00, 0x19, 0x00, 0x08, 0x00, 0x04, 0x00, 0x02, 0x97, 0x00,
    0x03, 0x0f,
];

/// The frame grammar written with streaming parser combinators.
fn frame(input: &[u8]) -> IResult<&[u8], PmsData> {
    combinator::map(
        tuple((
            tag("\x42\x4d"),
            tuple((be_u16, be_u16, be_u16, be_u16, be_u16, be_u16, be_u16, be_u16)),
            tuple((be_u16, be_u16, be_u16, be_u16, be_u16, be_u16, be_u16)),
        )),
        |(_, a, b)| PmsData {
            frame_length: a.0,
            pm1_cf1: a.1,
            pm2_5_cf1: a.2,
            pm10_cf1: a.3,
            pm1_atmo: a.4,
            pm2_5_atmo: a.5,
            pm10_atmo: a.6,
            pm0_3_count: a.7,
            pm0_5_count: b.0,
            pm1_0_count: b.1,
            pm2_5_count: b.2,
            pm5_0_count: b.3,
            pm10_0_count: b.4,
            reserved: b.5,
            checksum: b.6,
        },
    )(input)
}

fn step(input: &[u8]) -> IResult<&[u8], Option<PmsData>> {
    alt((combinator::map(frame, Some), combinator::map(take(1usize), |_| None)))(input)
}

/// The combinators' answer in the library's terms.
fn in_library_terms(
    result: IResult<&[u8], Option<PmsData>>,
) -> Result<(&[u8], Option<PmsData>), ParseError> {
    match result {
        Ok(found) => Ok(found),
        Err(nom::Err::Incomplete(nom::Needed::Size(n))) => Err(ParseError::Incomplete(n.get())),
        Err(_) => Err(ParseError::Malformed),
    }
}

fn assert_agree(input: &[u8]) {
    assert_eq!(parse(input), in_library_terms(step(input)), "input {:02x?}", input);
}

#[test]
fn agrees_with_combinators_on_every_prefix_of_a_frame() {
    for len in 0..=GOLDEN_PACKET.len() {
        assert_agree(&GOLDEN_PACKET[..len]);
    }
}

#[test]
fn agrees_with_combinators_on_every_suffix_of_a_frame() {
    for start in 0..=GOLDEN_PACKET.len() {
        assert_agree(&GOLDEN_PACKET[start..]);
    }
}

#[test]
fn agrees_with_combinators_on_all_inputs_of_two_bytes_or_fewer() {
    assert_agree(&[]);
    for first in 0..=255u8 {
        assert_agree(&[first]);
        for second in 0..=255u8 {
            assert_agree(&[first, second]);
        }
    }
}

#[test]
fn agrees_with_combinators_on_frames_with_one_byte_changed() {
    for at in 0..GOLDEN_PACKET.len() {
        for change in [0x01u8, 0x80, 0xff] {
            let mut input = GOLDEN_PACKET.to_vec();
            input[at] ^= change;
            input.extend_from_slice(&[0x42, 0x4d, 0x00]);
            assert_agree(&input);
        }
    }
}

#[test]
fn agrees_with_combinators_on_generated_streams() {
    // a small linear congruential generator, biased towards marker bytes
    let mut state: u32 = 0x1234_5678;
    for _ in 0..2000 {
        let mut input = Vec::new();
        state = state.wrapping_mul(1_664_525).wrapping_add(1_013_904_223);
        let len = (state >> 24) % 40;
        for _ in 0..len {
            state = state.wrapping_mul(1_664_525).wrapping_add(1_013_904_223);
            let byte = match (state >> 16) % 4 {
                0 => 0x42,
                1 => 0x4d,
                _ => (state >> 8) as u8,
            };
            input.push(byte);
        }
        assert_agree(&input);
    }
}
