use minipng::mpng::{MPNGComment, MPNGData, MPNGHeader, PixelType, MPNG};
use minipng::parser::{decode, MPNGBuilder, Parser, ParsingError};

const MAGIC: [u8; 8] = [0x4D, 0x69, 0x6E, 0x69, 0x2D, 0x50, 0x4E, 0x47];

fn be(x: u32) -> Vec<u8> {
    x.to_be_bytes().to_vec()
}

fn header_block(width: u32, height: u32, code: u8) -> Vec<u8> {
    let mut v = vec![b'H'];
    v.extend(be(9));
    v.extend(be(width));
    v.extend(be(height));
    v.push(code);
    v
}

fn block(tag: u8, payload: &[u8]) -> Vec<u8> {
    let mut v = vec![tag];
    v.extend(be(payload.len() as u32));
    v.extend_from_slice(payload);
    v
}

fn stream(blocks: &[Vec<u8>]) -> Vec<u8> {
    let mut v = MAGIC.to_vec();
    for b in blocks {
        v.extend_from_slice(b);
    }
    v
}

fn run(bytes: Vec<u8>) -> Result<MPNG, ParsingError> {
    let mut parser = Parser::new(bytes);
    parser.parse()
}

fn letter_a() -> Vec<u8> {
    vec![0x18, 0x24, 0x42, 0x42, 0x7E, 0x42, 0x42, 0x42, 0x42, 0x00]
}

#[test]
fn test_bw_nok_broken_dimensions() {
    let mpng = run(stream(&[header_block(8, 10, 0), block(b'D', &letter_a()[..9])]));
    assert_eq!(mpng.is_err(), true);

    let mpng = run(stream(&[header_block(10, 8, 0), block(b'D', &letter_a()[..8])]));
    assert_eq!(mpng.is_err(), true);
}

#[test]
fn test_bw_nok_wrong_magic() {
    let mut bytes = stream(&[header_block(8, 10, 0), block(b'D', &letter_a())]);
    bytes[0] = b'm';
    let mpng = run(bytes);
    assert_eq!(mpng.is_err(), true);
}

#[test]
fn test_bw_nok_missing_data() {
    let mpng = run(stream(&[header_block(8, 10, 0), block(b'C', b"La lettre A")]));
    assert_eq!(mpng.is_err(), true);
}

#[test]
fn test_bw_nok_missing_header() {
    let mpng = run(stream(&[block(b'C', b"La lettre A"), block(b'D', &letter_a())]));
    assert_eq!(mpng.is_err(), true);
}

#[test]
fn end_to_end_example() {
    let bytes = stream(&[header_block(8, 2, 0), block(b'D', &[0xA5, 0x3C])]);
    let m = decode(bytes).unwrap();
    assert_eq!(m.header.width, 8);
    assert_eq!(m.header.height, 2);
    assert_eq!(m.header.pixel_type, PixelType::BlackAndWhite);
    assert!(m.comment.is_none());
    assert_eq!(m.data.data, vec![0xA5, 0x3C]);
}

#[test]
fn valid_stream_with_comment() {
    let bytes = stream(&[
        header_block(8, 10, 0),
        block(b'C', b"La lettre A"),
        block(b'D', &letter_a()),
    ]);
    let m = decode(bytes).unwrap();
    assert_eq!(m.width(), 8);
    assert_eq!(m.height(), 10);
    assert_eq!(m.pixel_type(), PixelType::BlackAndWhite);
    assert_eq!(m.comment.unwrap().text, "La lettre A");
    assert_eq!(m.data.data, letter_a());
}

#[test]
fn comment_before_header_is_kept() {
    let bytes = stream(&[
        block(b'C', &[0xC3, 0xA9]),
        header_block(8, 1, 1),
        block(b'D', &[0xFF]),
    ]);
    let m = decode(bytes).unwrap();
    assert_eq!(m.comment.unwrap().text, "\u{e9}");
    assert_eq!(m.header.pixel_type, PixelType::GreyScale);
}

#[test]
fn empty_comment_is_accepted() {
    let bytes = stream(&[header_block(8, 1, 0), block(b'C', b""), block(b'D', &[1])]);
    let m = decode(bytes).unwrap();
    assert_eq!(m.comment.unwrap().text, "");
}

#[test]
fn width_and_height_are_big_endian() {
    let bytes = stream(&[header_block(0x0000_0102, 0x0000_0008, 0), block(b'D', &[0u8; 258])]);
    let m = decode(bytes).unwrap();
    assert_eq!(m.header.width, 258);
    assert_eq!(m.header.height, 8);
}

#[test]
fn decoding_twice_gives_equal_results() {
    let bytes = stream(&[header_block(8, 10, 2), block(b'C', b"x"), block(b'D', &letter_a())]);
    let a = decode(bytes.clone()).unwrap();
    let b = decode(bytes.clone()).unwrap();
    assert_eq!(a.header, b.header);
    assert_eq!(a.comment.unwrap().text, b.comment.unwrap().text);
    assert_eq!(a.data.data, b.data.data);

    let mut parser = Parser::new(bytes);
    let first = parser.parse().unwrap();
    let second = parser.parse().unwrap();
    assert_eq!(first.header, second.header);
    assert_eq!(first.data.data, second.data.data);

    let bad = stream(&[header_block(8, 10, 7)]);
    assert_eq!(decode(bad.clone()).err(), decode(bad).err());
}

#[test]
fn any_single_wrong_magic_byte_is_rejected() {
    let good = stream(&[header_block(8, 2, 0), block(b'D', &[1, 2])]);
    for i in 0..8 {
        let mut bytes = good.clone();
        bytes[i] ^= 0x01;
        assert_eq!(decode(bytes).err(), Some(ParsingError::InvalidMagicNumber));
    }
}

#[test]
fn short_magic_is_end_of_input() {
    assert_eq!(decode(MAGIC[..5].to_vec()).err(), Some(ParsingError::UnexpectedEndOfInput));
    assert_eq!(decode(Vec::new()).err(), Some(ParsingError::UnexpectedEndOfInput));
}

#[test]
fn magic_alone_misses_header() {
    assert_eq!(decode(MAGIC.to_vec()).err(), Some(ParsingError::MissingHeader));
}

#[test]
fn header_length_other_than_nine_is_rejected() {
    for len in [0u32, 8, 10, 0xFFFF_FFFF] {
        let mut h = vec![b'H'];
        h.extend(be(len));
        h.extend(vec![0u8; 9]);
        assert_eq!(
            decode(stream(&[h])).err(),
            Some(ParsingError::InvalidHeaderBlockLength(len))
        );
    }
}

#[test]
fn pixel_type_code_four_or_more_is_rejected() {
    for code in [4u8, 255] {
        let bytes = stream(&[header_block(8, 2, code), block(b'D', &[1, 2])]);
        assert_eq!(decode(bytes).err(), Some(ParsingError::InvalidHeaderPixelType(code)));
    }
}

#[test]
fn pixel_type_codes_round_trip() {
    let expected = [
        PixelType::BlackAndWhite,
        PixelType::GreyScale,
        PixelType::Palette,
        PixelType::TrueColor,
    ];
    for code in 0u8..4 {
        let bytes = stream(&[header_block(8, 2, code), block(b'D', &[1, 2])]);
        let m = decode(bytes).unwrap();
        assert_eq!(m.header.pixel_type, expected[code as usize]);
        assert_eq!(m.header.pixel_type.code(), code);
        assert_eq!(PixelType::from_code(code), Some(expected[code as usize]));
    }
    assert_eq!(PixelType::from_code(4), None);
}

#[test]
fn data_length_mismatch_is_rejected() {
    let bytes = stream(&[header_block(8, 10, 0), block(b'D', &[0u8; 9])]);
    assert_eq!(
        decode(bytes).err(),
        Some(ParsingError::InvalidDataBlockConsistency { expected: 10, found: 9 })
    );
}

#[test]
fn data_length_rounds_pixel_count_down() {
    let ok = stream(&[header_block(3, 3, 0), block(b'D', &[0x55])]);
    assert_eq!(decode(ok).unwrap().data.data, vec![0x55]);
    let bad = stream(&[header_block(3, 3, 0), block(b'D', &[0x55, 0x01])]);
    assert_eq!(
        decode(bad).err(),
        Some(ParsingError::InvalidDataBlockConsistency { expected: 1, found: 2 })
    );
}

#[test]
fn largest_dimensions_do_not_overflow() {
    let bytes = stream(&[header_block(0xFFFF_FFFF, 0xFFFF_FFFF, 0), block(b'D', &[0u8; 4])]);
    let expected = (0xFFFF_FFFFu64 * 0xFFFF_FFFFu64) / 8;
    assert_eq!(
        decode(bytes).err(),
        Some(ParsingError::InvalidDataBlockConsistency { expected, found: 4 })
    );
}

#[test]
fn zero_dimensions_accept_empty_data() {
    let bytes = stream(&[header_block(0, 5, 0), block(b'D', &[])]);
    let m = decode(bytes).unwrap();
    assert_eq!(m.header.width, 0);
    assert!(m.data.data.is_empty());
}

#[test]
fn data_without_header_is_missing_header() {
    let bytes = stream(&[block(b'C', b"no header"), block(b'D', &[1, 2])]);
    assert_eq!(decode(bytes).err(), Some(ParsingError::MissingHeader));
}

#[test]
fn header_alone_is_missing_data() {
    let bytes = stream(&[header_block(8, 2, 0)]);
    assert_eq!(decode(bytes).err(), Some(ParsingError::MissingData));
}

#[test]
fn truncated_header_is_end_of_input() {
    for cut in 0..9 {
        let mut bytes = stream(&[header_block(8, 2, 0)]);
        bytes.truncate(8 + 5 + cut);
        assert_eq!(decode(bytes).err(), Some(ParsingError::UnexpectedEndOfInput));
    }
    for cut in 1..5 {
        let mut bytes = stream(&[header_block(8, 2, 0)]);
        bytes.truncate(8 + cut);
        assert_eq!(decode(bytes).err(), Some(ParsingError::UnexpectedEndOfInput));
    }
}

#[test]
fn truncated_payloads_are_end_of_input() {
    let mut bytes = stream(&[header_block(8, 2, 0), block(b'D', &[1, 2])]);
    bytes.pop();
    assert_eq!(decode(bytes).err(), Some(ParsingError::UnexpectedEndOfInput));
    let mut bytes = stream(&[header_block(8, 2, 0), block(b'C', b"abc")]);
    bytes.pop();
    assert_eq!(decode(bytes).err(), Some(ParsingError::UnexpectedEndOfInput));
}

#[test]
fn unknown_tag_is_rejected_with_its_byte() {
    let bytes = stream(&[header_block(8, 2, 0), block(b'X', &[1, 2])]);
    assert_eq!(decode(bytes).err(), Some(ParsingError::InvalidBlockTag(b'X')));
    let trailing = stream(&[header_block(8, 2, 0), block(b'D', &[1, 2]), vec![0]]);
    assert_eq!(decode(trailing).err(), Some(ParsingError::InvalidBlockTag(0)));
}

#[test]
fn invalid_utf8_comment_is_rejected() {
    let bytes = stream(&[header_block(8, 2, 0), block(b'C', &[0xFF, 0xFE]), block(b'D', &[1, 2])]);
    assert_eq!(decode(bytes).err(), Some(ParsingError::InvalidCommentEncoding));
}

#[test]
fn later_blocks_replace_earlier_ones() {
    let bytes = stream(&[
        header_block(16, 1, 3),
        block(b'C', b"first"),
        block(b'D', &[1, 2]),
        header_block(8, 1, 0),
        block(b'C', b"second"),
        block(b'D', &[9]),
    ]);
    let m = decode(bytes).unwrap();
    assert_eq!(m.header, MPNGHeader { width: 8, height: 1, pixel_type: PixelType::BlackAndWhite });
    assert_eq!(m.comment.unwrap().text, "second");
    assert_eq!(m.data.data, vec![9]);
}

#[test]
fn builder_reports_missing_blocks() {
    let b = MPNGBuilder::new();
    assert_eq!(b.build().err(), Some(ParsingError::MissingHeader));

    let mut b = MPNGBuilder::new();
    b.set_header(MPNGHeader { width: 8, height: 1, pixel_type: PixelType::Palette });
    b.set_comment(MPNGComment { text: String::from("c") });
    assert_eq!(b.build().err(), Some(ParsingError::MissingData));

    let mut b = MPNGBuilder::new();
    b.set_header(MPNGHeader { width: 8, height: 1, pixel_type: PixelType::Palette });
    b.set_data(MPNGData { data: vec![7] });
    let m = b.build().unwrap();
    assert_eq!(m.header.pixel_type, PixelType::Palette);
    assert!(m.comment.is_none());
    assert_eq!(m.data.data, vec![7]);
}

#[test]
fn pixels_unpack_low_bit_first() {
    let bytes = stream(&[header_block(8, 2, 0), block(b'D', &[0x01, 0x80])]);
    let m = decode(bytes).unwrap();
    let p = m.pixels();
    assert_eq!(p.len(), 16);
    assert_eq!(p[0], true);
    assert!(p[1..15].iter().all(|x| !*x));
    assert_eq!(p[15], true);
}

#[test]
fn pixel_type_labels() {
    assert_eq!(PixelType::BlackAndWhite.label(), "Black & White");
    assert_eq!(PixelType::GreyScale.label(), "Grey Scale");
    assert_eq!(PixelType::Palette.label(), "Palette");
    assert_eq!(PixelType::TrueColor.label(), "True Color");
}

#[test]
fn comment_after_data_is_kept() {
    let bytes = stream(&[header_block(8, 1, 2), block(b'D', &[0x0F]), block(b'C', b"tail")]);
    let m = decode(bytes).unwrap();
    assert_eq!(m.comment.unwrap().text, "tail");
    assert_eq!(m.header.pixel_type, PixelType::Palette);
    assert_eq!(m.data.data, vec![0x0F]);
}
