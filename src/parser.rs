use vstd::prelude::*;
use vstd::slice::{slice_subrange, slice_to_vec};
use vstd::utf8::{decode_utf8, valid_utf8};
use crate::model::{
    be_u32_at, be_value, block_step, blocks_from, collected_empty, decode_stream,
    finish, lemma_block_step_advances, magic_seq, Collected, HEADER_LENGTH, TAG_COMMENT,
    TAG_DATA, TAG_HEADER,
};
use crate::mpng::{
    comment_view, ImageModel, MPNGComment, MPNGData, MPNGHeader, PixelType, MPNG,
};

verus! {

/// Why a stream could not be decoded.
#[derive(Debug, Clone, Copy, PartialEq, Eq, Structural)]
pub enum ParsingError {
    /// A tag byte names no block kind; carries the byte.
    InvalidBlockTag(u8),
    /// The first eight bytes are not the magic prefix.
    InvalidMagicNumber,
    /// A Header block declares a length other than 9; carries that length.
    InvalidHeaderBlockLength(u32),
    /// A Header block's pixel-type code is 4 or more; carries the code.
    InvalidHeaderPixelType(u8),
    /// A Data block's declared length is not width * height / 8.
    InvalidDataBlockConsistency { expected: u64, found: u32 },
    /// A read needed more bytes than the stream had left.
    UnexpectedEndOfInput,
    /// A Comment block's payload is not valid UTF-8.
    InvalidCommentEncoding,
    /// No Header block came before a Data block or before the end.
    MissingHeader,
    /// The stream ended without a Data block.
    MissingData,
}

/// Relies on byteorder's `BigEndian::read_u32`: the first four bytes of `b`
/// read as a big-endian integer (it panics on fewer than four).
#[verifier::external_body]
fn read_be_u32(b: &[u8]) -> (r: u32)
    requires
        b@.len() >= 4,
    ensures
        r as int == be_value(b@[0], b@[1], b@[2], b@[3]),
{
    <byteorder::BigEndian as byteorder::ByteOrder>::read_u32(b)
}

/// Relies on `String::from_utf8`: the text that the bytes spell in UTF-8,
/// or `None` where they are not valid UTF-8.
#[verifier::external_body]
fn text_from_utf8(b: Vec<u8>) -> (r: Option<String>)
    ensures
        r is Some <==> valid_utf8(b@),
        r is Some ==> r->Some_0@ == decode_utf8(b@),
{
    String::from_utf8(b).ok()
}

/// The model of a decode result: the image's view, or the error.
pub open spec fn result_view(r: Result<MPNG, ParsingError>) -> Result<ImageModel, ParsingError> {
    match r {
        Ok(m) => Ok(m@),
        Err(e) => Err(e),
    }
}

/// Collects at most one block of each kind; a later block of a kind replaces
/// an earlier one.
#[derive(Debug, Clone)]
pub struct MPNGBuilder {
    pub header: Option<MPNGHeader>,
    pub comment: Option<MPNGComment>,
    pub data: Option<MPNGData>,
}

impl View for MPNGBuilder {
    type V = Collected;

    open spec fn view(&self) -> Collected {
        Collected {
            header: self.header,
            comment: comment_view(self.comment),
            data: match self.data {
                Some(d) => Some(d.data@),
                None => None,
            },
        }
    }
}

impl MPNGBuilder {
    /// A builder that holds nothing.
    pub fn new() -> (r: MPNGBuilder)
        ensures
            r@ == collected_empty(),
    {
        MPNGBuilder { header: None, comment: None, data: None }
    }

    /// The image made of what was collected: fails with `MissingHeader`
    /// without a header, else with `MissingData` without data.
    pub fn build(self) -> (r: Result<MPNG, ParsingError>)
        ensures
            result_view(r) == finish(self@),
    {
        let header = match self.header {
            Some(h) => h,
            None => return Err(ParsingError::MissingHeader),
        };
        let data = match self.data {
            Some(d) => d,
            None => return Err(ParsingError::MissingData),
        };
        Ok(MPNG { header, comment: self.comment, data })
    }

    /// Installs a header, replacing any earlier one.
    pub fn set_header(&mut self, header: MPNGHeader)
        ensures
            final(self)@ == (Collected { header: Some(header), ..old(self)@ }),
    {
        self.header = Some(header);
    }

    /// Installs a comment, replacing any earlier one.
    pub fn set_comment(&mut self, comment: MPNGComment)
        ensures
            final(self)@ == (Collected { comment: Some(comment.text@), ..old(self)@ }),
    {
        self.comment = Some(comment);
    }

    /// Installs pixel data, replacing any earlier data.
    pub fn set_data(&mut self, data: MPNGData)
        ensures
            final(self)@ == (Collected { data: Some(data.data@), ..old(self)@ }),
    {
        self.data = Some(data);
    }
}

/// Decodes a byte stream held in memory.
pub struct Parser {
    bytes: Vec<u8>,
    pos: usize,
    builder: MPNGBuilder,
}

impl Parser {
    /// The whole stream that this parser decodes.
    pub closed spec fn stream(&self) -> Seq<u8> {
        self.bytes@
    }

    /// The position of the next unread byte.
    pub closed spec fn position(&self) -> int {
        self.pos as int
    }

    /// What has been collected from the blocks read so far.
    pub closed spec fn collected(&self) -> Collected {
        self.builder@
    }

    /// The read position lies within the stream.
    pub closed spec fn wf(&self) -> bool {
        self.pos <= self.bytes.len()
    }

    /// A parser over `bytes`, positioned at its start, that has collected nothing.
    pub fn new(bytes: Vec<u8>) -> (r: Parser)
        ensures
            r.wf(),
            r.stream() == bytes@,
            r.position() == 0,
            r.collected() == collected_empty(),
    {
        Parser { bytes, pos: 0, builder: MPNGBuilder::new() }
    }

    /// Decodes the whole stream from its start: the image, or the first
    /// error met. Any state left by an earlier call is discarded.
    pub fn parse(&mut self) -> (r: Result<MPNG, ParsingError>)
        ensures
            final(self).stream() == old(self).stream(),
            result_view(r) == decode_stream(old(self).stream()),
    {
        self.pos = 0;
        self.builder = MPNGBuilder::new();
        if self.bytes.len() < 8 {
            return Err(ParsingError::UnexpectedEndOfInput);
        }
        if !has_magic(&self.bytes) {
            return Err(ParsingError::InvalidMagicNumber);
        }
        self.pos = 8;
        let ghost s = self.bytes@;
        loop
            invariant
                self.wf(),
                self.bytes@ == s,
                s == old(self).bytes@,
                s.len() >= 8,
                s.subrange(0, 8) == magic_seq(),
                8 <= self.pos,
                blocks_from(s, 8, collected_empty()) == blocks_from(s, self.pos as int, self.builder@),
            ensures
                self.bytes@ == s,
                blocks_from(s, 8, collected_empty()) == Ok::<Collected, ParsingError>(self.builder@),
            decreases s.len() - self.pos,
        {
            let ghost pos0 = self.pos as int;
            let ghost col0 = self.builder@;
            proof {
                lemma_block_step_advances(s, pos0, col0);
            }
            match self.read_block() {
                Ok(true) => {},
                Ok(false) => break,
                Err(e) => {
                    assert(blocks_from(s, pos0, col0) == Err::<Collected, ParsingError>(e));
                    return Err(e);
                },
            }
        }
        let mut builder = MPNGBuilder::new();
        core::mem::swap(&mut builder, &mut self.builder);
        builder.build()
    }

    /// Reads a big-endian `u32` at the read position and moves past it.
    fn read_u32(&mut self) -> (r: Result<u32, ParsingError>)
        requires
            old(self).wf(),
        ensures
            final(self).wf(),
            final(self).bytes == old(self).bytes,
            final(self).builder == old(self).builder,
            old(self).pos + 4 <= old(self).bytes.len() ==> r == Ok::<u32, ParsingError>(
                be_u32_at(old(self).bytes@, old(self).pos as int),
            ) && final(self).pos == old(self).pos + 4,
            old(self).pos + 4 > old(self).bytes.len() ==> r == Err::<u32, ParsingError>(
                ParsingError::UnexpectedEndOfInput,
            ),
    {
        if self.bytes.len() - self.pos < 4 {
            return Err(ParsingError::UnexpectedEndOfInput);
        }
        let b = slice_subrange(self.bytes.as_slice(), self.pos, self.pos + 4);
        let v = read_be_u32(b);
        self.pos = self.pos + 4;
        Ok(v)
    }

    /// Reads `n` bytes at the read position and moves past them.
    fn read_bytes(&mut self, n: u32) -> (r: Result<Vec<u8>, ParsingError>)
        requires
            old(self).wf(),
        ensures
            final(self).wf(),
            final(self).bytes == old(self).bytes,
            final(self).builder == old(self).builder,
            old(self).pos + n <= old(self).bytes.len() ==> r is Ok && r->Ok_0@
                == old(self).bytes@.subrange(old(self).pos as int, old(self).pos + n)
                && final(self).pos == old(self).pos + n,
            old(self).pos + n > old(self).bytes.len() ==> r == Err::<Vec<u8>, ParsingError>(
                ParsingError::UnexpectedEndOfInput,
            ),
    {
        if self.bytes.len() - self.pos < n as usize {
            return Err(ParsingError::UnexpectedEndOfInput);
        }
        let end = self.pos + n as usize;
        let v = slice_to_vec(slice_subrange(self.bytes.as_slice(), self.pos, end));
        self.pos = end;
        Ok(v)
    }

    /// Abandons the block whose tag stands at `start`: moves the read
    /// position back to it and returns `e`.
    fn fail(&mut self, start: usize, e: ParsingError) -> (r: Result<bool, ParsingError>)
        requires
            start <= old(self).bytes.len(),
        ensures
            final(self).wf(),
            final(self).bytes == old(self).bytes,
            final(self).builder == old(self).builder,
            final(self).pos == start,
            r == Err::<bool, ParsingError>(e),
    {
        self.pos = start;
        Err(e)
    }

    /// Decodes the rest of a Header block whose tag was just read.
    fn parse_header(&mut self) -> (r: Result<bool, ParsingError>)
        requires
            old(self).wf(),
            1 <= old(self).pos,
            old(self).bytes@[old(self).pos - 1] == TAG_HEADER,
        ensures
            final(self).wf(),
            final(self).bytes == old(self).bytes,
            block_step_result(old(self).bytes@, old(self).pos - 1, old(self).builder@, r,
                final(self).pos as int, final(self).builder@),
    {
        proof {
            reveal(block_step);
        }
        let start = self.pos - 1;
        let length = match self.read_u32() {
            Ok(v) => v,
            Err(e) => return self.fail(start, e),
        };
        if length != HEADER_LENGTH {
            return self.fail(start, ParsingError::InvalidHeaderBlockLength(length));
        }
        let fields = match self.read_bytes(HEADER_LENGTH) {
            Ok(v) => v,
            Err(e) => return self.fail(start, e),
        };
        let width = read_be_u32(slice_subrange(fields.as_slice(), 0, 4));
        let height = read_be_u32(slice_subrange(fields.as_slice(), 4, 8));
        let code = fields[8];
        let pixel_type = match PixelType::from_code(code) {
            Some(t) => t,
            None => return self.fail(start, ParsingError::InvalidHeaderPixelType(code)),
        };
        self.builder.set_header(MPNGHeader { width, height, pixel_type });
        Ok(true)
    }

    /// Decodes the rest of a Comment block whose tag was just read.
    fn parse_comment(&mut self) -> (r: Result<bool, ParsingError>)
        requires
            old(self).wf(),
            1 <= old(self).pos,
            old(self).bytes@[old(self).pos - 1] == TAG_COMMENT,
        ensures
            final(self).wf(),
            final(self).bytes == old(self).bytes,
            block_step_result(old(self).bytes@, old(self).pos - 1, old(self).builder@, r,
                final(self).pos as int, final(self).builder@),
    {
        proof {
            reveal(block_step);
        }
        let start = self.pos - 1;
        let length = match self.read_u32() {
            Ok(v) => v,
            Err(e) => return self.fail(start, e),
        };
        let payload = match self.read_bytes(length) {
            Ok(v) => v,
            Err(e) => return self.fail(start, e),
        };
        let text = match text_from_utf8(payload) {
            Some(t) => t,
            None => return self.fail(start, ParsingError::InvalidCommentEncoding),
        };
        self.builder.set_comment(MPNGComment { text });
        Ok(true)
    }

    /// Decodes the rest of a Data block whose tag was just read; its length
    /// must be width * height / 8 of the header collected so far.
    fn parse_data(&mut self) -> (r: Result<bool, ParsingError>)
        requires
            old(self).wf(),
            1 <= old(self).pos,
            old(self).bytes@[old(self).pos - 1] == TAG_DATA,
        ensures
            final(self).wf(),
            final(self).bytes == old(self).bytes,
            block_step_result(old(self).bytes@, old(self).pos - 1, old(self).builder@, r,
                final(self).pos as int, final(self).builder@),
    {
        proof {
            reveal(block_step);
        }
        let start = self.pos - 1;
        let length = match self.read_u32() {
            Ok(v) => v,
            Err(e) => return self.fail(start, e),
        };
        let header = match self.builder.header {
            Some(h) => h,
            None => return self.fail(start, ParsingError::MissingHeader),
        };
        let w = header.width as u64;
        let h = header.height as u64;
        assert(w * h <= 0xffff_ffffu64 * 0xffff_ffffu64) by (nonlinear_arith)
            requires
                w <= 0xffff_ffffu64,
                h <= 0xffff_ffffu64,
        ;
        let expected = w * h / 8;
        if expected != length as u64 {
            return self.fail(
                start,
                ParsingError::InvalidDataBlockConsistency { expected, found: length },
            );
        }
        let payload = match self.read_bytes(length) {
            Ok(v) => v,
            Err(e) => return self.fail(start, e),
        };
        self.builder.set_data(MPNGData { data: payload });
        Ok(true)
    }

    /// Reads one block: `Ok(false)` at the end of the stream, `Ok(true)`
    /// after a block was decoded, or the error that the block raises.
    fn read_block(&mut self) -> (r: Result<bool, ParsingError>)
        requires
            old(self).wf(),
        ensures
            final(self).wf(),
            final(self).bytes == old(self).bytes,
            old(self).pos >= old(self).bytes.len() ==> r == Ok::<bool, ParsingError>(false)
                && final(self).pos == old(self).pos
                && final(self).builder@ == old(self).builder@,
            old(self).pos < old(self).bytes.len() ==> r != Ok::<bool, ParsingError>(false)
                && block_step_result(old(self).bytes@, old(self).pos as int,
                old(self).builder@, r, final(self).pos as int, final(self).builder@),
    {
        proof {
            reveal(block_step);
        }
        if self.pos >= self.bytes.len() {
            return Ok(false);
        }
        let tag = self.bytes[self.pos];
        if tag != TAG_HEADER && tag != TAG_COMMENT && tag != TAG_DATA {
            return Err(ParsingError::InvalidBlockTag(tag));
        }
        self.pos = self.pos + 1;
        if tag == TAG_HEADER {
            self.parse_header()
        } else if tag == TAG_COMMENT {
            self.parse_comment()
        } else {
            self.parse_data()
        }
    }
}

/// Whether the stream opens with the magic prefix.
fn has_magic(b: &Vec<u8>) -> (r: bool)
    requires
        b@.len() >= 8,
    ensures
        r == (b@.subrange(0, 8) == magic_seq()),
{
    let r = b[0] == 0x4D && b[1] == 0x69 && b[2] == 0x6E && b[3] == 0x69 && b[4] == 0x2D && b[5]
        == 0x50 && b[6] == 0x4E && b[7] == 0x47;
    if r {
        assert(b@.subrange(0, 8) =~= magic_seq());
    } else {
        assert(b@.subrange(0, 8) != magic_seq()) by {
            let m = magic_seq();
            let t = b@.subrange(0, 8);
            if t == m {
                assert(t[0] == m[0] && t[1] == m[1] && t[2] == m[2] && t[3] == m[3]);
                assert(t[4] == m[4] && t[5] == m[5] && t[6] == m[6] && t[7] == m[7]);
            }
        }
    }
    r
}

/// Decodes a whole byte stream: the image, or the first error met.
pub fn decode(bytes: Vec<u8>) -> (r: Result<MPNG, ParsingError>)
    ensures
        result_view(r) == decode_stream(bytes@),
{
    let mut parser = Parser::new(bytes);
    parser.parse()
}

/// A block decoder's outcome agrees with `block_step` on the block at
/// `start`: success moves to the block's end with the new collection; an
/// error is the one that `block_step` gives, and leaves the read position at
/// `start` and the collection as it was.
pub open spec fn block_step_result(
    s: Seq<u8>,
    start: int,
    before: Collected,
    r: Result<bool, ParsingError>,
    pos_after: int,
    after: Collected,
) -> bool {
    match r {
        Ok(more) => more && block_step(s, start, before) == Ok::<(int, Collected), ParsingError>(
            (pos_after, after),
        ),
        Err(e) => block_step(s, start, before) == Err::<(int, Collected), ParsingError>(e)
            && pos_after == start && after == before,
    }
}

} // verus!
