use vstd::prelude::*;
use vstd::utf8::{decode_utf8, valid_utf8};
use crate::mpng::{ImageModel, MPNGHeader, pixel_type_of};
use crate::parser::ParsingError;

verus! {

/// The eight bytes that open every stream: "Mini-PNG" in ASCII.
pub open spec fn magic_seq() -> Seq<u8> {
    seq![0x4Du8, 0x69u8, 0x6Eu8, 0x69u8, 0x2Du8, 0x50u8, 0x4Eu8, 0x47u8]
}

/// Tag byte of a Header block.
pub const TAG_HEADER: u8 = 0x48;

/// Tag byte of a Comment block.
pub const TAG_COMMENT: u8 = 0x43;

/// Tag byte of a Data block.
pub const TAG_DATA: u8 = 0x44;

/// Payload length that a Header block must declare.
pub const HEADER_LENGTH: u32 = 9;

/// The value of four bytes read as a big-endian unsigned integer.
pub open spec fn be_value(b0: u8, b1: u8, b2: u8, b3: u8) -> int {
    b0 as int * 0x1000000 + b1 as int * 0x10000 + b2 as int * 0x100 + b3 as int
}

/// The big-endian `u32` that starts at position `i` of `s`.
pub open spec fn be_u32_at(s: Seq<u8>, i: int) -> u32
    recommends
        0 <= i && i + 4 <= s.len(),
{
    be_value(s[i], s[i + 1], s[i + 2], s[i + 3]) as u32
}

/// The four bytes that encode `x` in big-endian order.
pub open spec fn be_bytes(x: u32) -> Seq<u8> {
    seq![
        (x / 0x1000000) as u8,
        (x / 0x10000 % 0x100) as u8,
        (x / 0x100 % 0x100) as u8,
        (x % 0x100) as u8,
    ]
}

/// A Header block declaring `width`, `height` and pixel-type code `code`.
pub open spec fn header_block(width: u32, height: u32, code: u8) -> Seq<u8> {
    seq![TAG_HEADER] + be_bytes(HEADER_LENGTH) + be_bytes(width) + be_bytes(height) + seq![code]
}

/// A block with tag `tag` whose payload is `payload` (at most `u32::MAX` bytes).
pub open spec fn tagged_block(tag: u8, payload: Seq<u8>) -> Seq<u8> {
    seq![tag] + be_bytes(payload.len() as u32) + payload
}

/// Where a stream built by `image_stream` places its Comment block.
pub enum CommentPlace {
    BeforeHeader,
    AfterHeader,
    AfterData,
}

/// The Comment block for `comment`, or nothing where there is none.
pub open spec fn comment_part(comment: Option<Seq<u8>>) -> Seq<u8> {
    match comment {
        Some(t) => tagged_block(TAG_COMMENT, t),
        None => Seq::empty(),
    }
}

/// A well-formed stream: the magic prefix, a Header block, a Data block after
/// it, and a Comment block at `place` where `comment` holds a payload.
pub open spec fn image_stream(
    width: u32,
    height: u32,
    code: u8,
    comment: Option<Seq<u8>>,
    place: CommentPlace,
    data: Seq<u8>,
) -> Seq<u8> {
    let hb = header_block(width, height, code);
    let cb = comment_part(comment);
    let db = tagged_block(TAG_DATA, data);
    match place {
        CommentPlace::BeforeHeader => magic_seq() + cb + hb + db,
        CommentPlace::AfterHeader => magic_seq() + hb + cb + db,
        CommentPlace::AfterData => magic_seq() + hb + db + cb,
    }
}

/// The number of payload bytes that a Data block must declare under a header:
/// one bit per pixel, eight pixels to a byte, any remainder dropped.
pub open spec fn expected_data_length(h: MPNGHeader) -> int {
    (h.width as int * h.height as int) / 8
}

/// What has been collected from the blocks read so far; a later block of a
/// kind replaces an earlier one.
pub struct Collected {
    pub header: Option<MPNGHeader>,
    pub comment: Option<Seq<char>>,
    pub data: Option<Seq<u8>>,
}

/// Nothing collected yet.
pub open spec fn collected_empty() -> Collected {
    Collected { header: None, comment: None, data: None }
}

/// Decodes the block whose tag byte stands at `pos` (which must be in `s`):
/// the position just past the block and what is collected after it, or the
/// error that the block raises.
#[verifier::opaque]
pub open spec fn block_step(s: Seq<u8>, pos: int, c: Collected) -> Result<(int, Collected), ParsingError>
    recommends
        0 <= pos < s.len(),
{
    let tag = s[pos];
    let body = pos + 5;
    if tag != TAG_HEADER && tag != TAG_COMMENT && tag != TAG_DATA {
        Err(ParsingError::InvalidBlockTag(tag))
    } else if body > s.len() {
        Err(ParsingError::UnexpectedEndOfInput)
    } else {
        let length = be_u32_at(s, pos + 1);
        let end = body + length as int;
        if tag == TAG_HEADER {
            if length != HEADER_LENGTH {
                Err(ParsingError::InvalidHeaderBlockLength(length))
            } else if end > s.len() {
                Err(ParsingError::UnexpectedEndOfInput)
            } else if s[body + 8] > 3 {
                Err(ParsingError::InvalidHeaderPixelType(s[body + 8]))
            } else {
                let h = MPNGHeader {
                    width: be_u32_at(s, body),
                    height: be_u32_at(s, body + 4),
                    pixel_type: pixel_type_of(s[body + 8]),
                };
                Ok((end, Collected { header: Some(h), ..c }))
            }
        } else if tag == TAG_COMMENT {
            if end > s.len() {
                Err(ParsingError::UnexpectedEndOfInput)
            } else {
                let payload = s.subrange(body, end);
                if valid_utf8(payload) {
                    Ok((end, Collected { comment: Some(decode_utf8(payload)), ..c }))
                } else {
                    Err(ParsingError::InvalidCommentEncoding)
                }
            }
        } else {
            match c.header {
                None => Err(ParsingError::MissingHeader),
                Some(h) => if expected_data_length(h) != length as int {
                    Err(
                        ParsingError::InvalidDataBlockConsistency {
                            expected: expected_data_length(h) as u64,
                            found: length,
                        },
                    )
                } else if end > s.len() {
                    Err(ParsingError::UnexpectedEndOfInput)
                } else {
                    Ok((end, Collected { data: Some(s.subrange(body, end)), ..c }))
                },
            }
        }
    }
}

/// Decodes the blocks from `pos` to the end of `s`, starting from what `c`
/// holds; stops at the first error.
pub open spec fn blocks_from(s: Seq<u8>, pos: int, c: Collected) -> Result<Collected, ParsingError>
    decreases s.len() - pos,
    via blocks_from_decreases
{
    if pos < 0 || pos >= s.len() {
        Ok(c)
    } else {
        match block_step(s, pos, c) {
            Err(e) => Err(e),
            Ok((next, c2)) => blocks_from(s, next, c2),
        }
    }
}

/// A block that decodes ends past its tag and within the stream.
pub proof fn lemma_block_step_advances(s: Seq<u8>, pos: int, c: Collected)
    ensures
        block_step(s, pos, c) is Ok ==> pos < block_step(s, pos, c)->Ok_0.0 <= s.len(),
{
    reveal(block_step);
}

#[via_fn]
proof fn blocks_from_decreases(s: Seq<u8>, pos: int, c: Collected) {
    reveal(block_step);
}

/// Decodes the blocks from `pos` until a block ends exactly at `target`:
/// what is collected there, or `None` where a block fails, the stream ends,
/// or a block runs past `target`.
pub open spec fn blocks_until(s: Seq<u8>, pos: int, c: Collected, target: int) -> Option<Collected>
    decreases s.len() - pos,
    via blocks_until_decreases
{
    if pos == target {
        Some(c)
    } else if pos < 0 || pos >= s.len() || pos > target {
        None
    } else {
        match block_step(s, pos, c) {
            Err(_) => None,
            Ok((next, c2)) => blocks_until(s, next, c2, target),
        }
    }
}

#[via_fn]
proof fn blocks_until_decreases(s: Seq<u8>, pos: int, c: Collected, target: int) {
    reveal(block_step);
}

/// Decoding `s` comes to a block boundary at `pos` with `c` collected: the
/// magic prefix is right and the blocks between it and `pos` decode.
pub open spec fn reaches(s: Seq<u8>, pos: int, c: Collected) -> bool {
    &&& s.len() >= 8
    &&& s.subrange(0, 8) == magic_seq()
    &&& blocks_until(s, 8, collected_empty(), pos) == Some(c)
}

/// The image that what was collected makes, or the block that it lacks.
pub open spec fn finish(c: Collected) -> Result<ImageModel, ParsingError> {
    match c.header {
        None => Err(ParsingError::MissingHeader),
        Some(h) => match c.data {
            None => Err(ParsingError::MissingData),
            Some(d) => Ok(ImageModel { header: h, comment: c.comment, data: d }),
        },
    }
}

/// What decoding the whole byte stream `s` gives.
pub open spec fn decode_stream(s: Seq<u8>) -> Result<ImageModel, ParsingError> {
    if s.len() < 8 {
        Err(ParsingError::UnexpectedEndOfInput)
    } else if s.subrange(0, 8) != magic_seq() {
        Err(ParsingError::InvalidMagicNumber)
    } else {
        match blocks_from(s, 8, collected_empty()) {
            Err(e) => Err(e),
            Ok(c) => finish(c),
        }
    }
}


} // verus!
