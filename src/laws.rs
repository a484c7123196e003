use vstd::prelude::*;
use vstd::utf8::{decode_utf8, valid_utf8};
use crate::model::{
    be_bytes, be_u32_at, be_value, block_step, blocks_from, collected_empty, decode_stream,
    expected_data_length, header_block, image_stream, magic_seq, tagged_block, comment_part, CommentPlace,
    blocks_until, lemma_block_step_advances, reaches, Collected, HEADER_LENGTH, TAG_COMMENT, TAG_DATA, TAG_HEADER,
};
use crate::mpng::{pixel_type_code, pixel_type_of, ImageModel, MPNG, MPNGHeader};
use crate::parser::result_view;
use crate::parser::ParsingError;

verus! {

/// Four bytes written by `be_bytes` read back as the same integer.
pub proof fn lemma_be_bytes_value(x: u32)
    ensures
        be_value(be_bytes(x)[0], be_bytes(x)[1], be_bytes(x)[2], be_bytes(x)[3]) == x,
{
    let b0 = x / 0x1000000;
    let b1 = x / 0x10000 % 0x100;
    let b2 = x / 0x100 % 0x100;
    let b3 = x % 0x100;
    assert(b0 < 0x100 && b1 < 0x100 && b2 < 0x100 && b3 < 0x100 && x == b0 * 0x1000000 + b1 * 0x10000 + b2 * 0x100 + b3) by (bit_vector)
        requires
            b0 == x / 0x1000000,
            b1 == x / 0x10000 % 0x100,
            b2 == x / 0x100 % 0x100,
            b3 == x % 0x100,
    ;
}

/// Where `s` holds `be_bytes(x)` at `i`, the integer read there is `x`.
pub proof fn lemma_be_u32_at(s: Seq<u8>, i: int, x: u32)
    requires
        0 <= i,
        i + 4 <= s.len(),
        s.subrange(i, i + 4) == be_bytes(x),
    ensures
        be_u32_at(s, i) == x,
{
    lemma_be_bytes_value(x);
    assert(s[i] == s.subrange(i, i + 4)[0]);
    assert(s[i + 1] == s.subrange(i, i + 4)[1]);
    assert(s[i + 2] == s.subrange(i, i + 4)[2]);
    assert(s[i + 3] == s.subrange(i, i + 4)[3]);
}

/// Where `s` holds `t` at `pos`, it holds each piece of `t` at the matching place.
pub proof fn lemma_piece(s: Seq<u8>, pos: int, t: Seq<u8>, a: int, b: int)
    requires
        0 <= pos,
        pos + t.len() <= s.len(),
        s.subrange(pos, pos + t.len()) == t,
        0 <= a <= b <= t.len(),
    ensures
        s.subrange(pos + a, pos + b) == t.subrange(a, b),
{
    assert(s.subrange(pos + a, pos + b) =~= t.subrange(a, b)) by {
        assert forall|k: int| 0 <= k < b - a implies #[trigger] s.subrange(pos + a, pos + b)[k]
            == t.subrange(a, b)[k] by {
            assert(s[pos + a + k] == s.subrange(pos, pos + t.len())[a + k]);
        }
    }
}

/// A complete Header block with a code in `0..=3` installs its header.
pub proof fn lemma_header_step(s: Seq<u8>, pos: int, c: Collected, width: u32, height: u32, code: u8)
    requires
        0 <= pos,
        pos + 14 <= s.len(),
        s.subrange(pos, pos + 14) == header_block(width, height, code),
        code <= 3,
    ensures
        block_step(s, pos, c) == Ok::<(int, Collected), ParsingError>(
            (
                pos + 14,
                Collected {
                    header: Some(
                        MPNGHeader { width, height, pixel_type: pixel_type_of(code) },
                    ),
                    ..c
                },
            ),
        ),
{
    reveal(block_step);
    let t = header_block(width, height, code);
    lemma_piece(s, pos, t, 0, 1);
    lemma_piece(s, pos, t, 1, 5);
    lemma_piece(s, pos, t, 5, 9);
    lemma_piece(s, pos, t, 9, 13);
    lemma_piece(s, pos, t, 13, 14);
    assert(s[pos] == s.subrange(pos, pos + 1)[0]);
    assert(s[pos + 13] == s.subrange(pos + 13, pos + 14)[0]);
    assert(t.subrange(1, 5) =~= be_bytes(9));
    assert(t.subrange(5, 9) =~= be_bytes(width));
    assert(t.subrange(9, 13) =~= be_bytes(height));
    lemma_be_u32_at(s, pos + 1, 9);
    lemma_be_u32_at(s, pos + 5, width);
    lemma_be_u32_at(s, pos + 9, height);
}

/// A complete block with tag `tag`: its tag, length field and payload.
pub proof fn lemma_tagged_block(s: Seq<u8>, pos: int, tag: u8, payload: Seq<u8>)
    requires
        0 <= pos,
        payload.len() <= u32::MAX,
        pos + 5 + payload.len() <= s.len(),
        s.subrange(pos, pos + 5 + payload.len()) == tagged_block(tag, payload),
    ensures
        s[pos] == tag,
        be_u32_at(s, pos + 1) == payload.len(),
        s.subrange(pos + 5, pos + 5 + payload.len()) == payload,
{
    let t = tagged_block(tag, payload);
    let n = payload.len() as int;
    lemma_piece(s, pos, t, 0, 1);
    lemma_piece(s, pos, t, 1, 5);
    lemma_piece(s, pos, t, 5, 5 + n);
    assert(s[pos] == s.subrange(pos, pos + 1)[0]);
    assert(t.subrange(1, 5) =~= be_bytes(n as u32));
    assert(t.subrange(5, 5 + n) =~= payload);
    lemma_be_u32_at(s, pos + 1, n as u32);
}

/// A complete Comment block with a UTF-8 payload installs its text.
pub proof fn lemma_comment_step(s: Seq<u8>, pos: int, c: Collected, payload: Seq<u8>)
    requires
        0 <= pos,
        payload.len() <= u32::MAX,
        pos + 5 + payload.len() <= s.len(),
        s.subrange(pos, pos + 5 + payload.len()) == tagged_block(TAG_COMMENT, payload),
        valid_utf8(payload),
    ensures
        block_step(s, pos, c) == Ok::<(int, Collected), ParsingError>(
            (pos + 5 + payload.len(), Collected { comment: Some(decode_utf8(payload)), ..c }),
        ),
{
    reveal(block_step);
    lemma_tagged_block(s, pos, TAG_COMMENT, payload);
}

/// A complete Data block after a header, of the length that the header asks
/// for, installs its payload.
pub proof fn lemma_data_step(s: Seq<u8>, pos: int, c: Collected, payload: Seq<u8>)
    requires
        0 <= pos,
        payload.len() <= u32::MAX,
        pos + 5 + payload.len() <= s.len(),
        s.subrange(pos, pos + 5 + payload.len()) == tagged_block(TAG_DATA, payload),
        c.header is Some,
        expected_data_length(c.header->Some_0) == payload.len(),
    ensures
        block_step(s, pos, c) == Ok::<(int, Collected), ParsingError>(
            (pos + 5 + payload.len(), Collected { data: Some(payload), ..c }),
        ),
{
    reveal(block_step);
    lemma_tagged_block(s, pos, TAG_DATA, payload);
}

/// A block placed after `pre` and before `rest` stands at `pre.len()`.
pub proof fn lemma_block_at(pre: Seq<u8>, blk: Seq<u8>, rest: Seq<u8>)
    ensures
        (pre + blk + rest).subrange(pre.len() as int, pre.len() + blk.len() as int) == blk,
{
    assert((pre + blk + rest).subrange(pre.len() as int, pre.len() + blk.len() as int) =~= blk);
}

/// The pieces of `a + b + c + d` stand where their lengths put them.
pub proof fn lemma_four_parts(a: Seq<u8>, b: Seq<u8>, c: Seq<u8>, d: Seq<u8>)
    ensures
        (a + b + c + d).subrange(0, a.len() as int) == a,
        (a + b + c + d).subrange(a.len() as int, a.len() as int + b.len()) == b,
        (a + b + c + d).subrange(a.len() as int + b.len(), a.len() as int + b.len() + c.len()) == c,
        (a + b + c + d).subrange(a.len() as int + b.len() + c.len(), (a + b + c + d).len() as int) == d,
{
    let s = a + b + c + d;
    assert(s.subrange(0, a.len() as int) =~= a);
    assert(s.subrange(a.len() as int, a.len() as int + b.len()) =~= b);
    assert(s.subrange(a.len() as int + b.len(), a.len() as int + b.len() + c.len()) =~= c);
    assert(s.subrange(a.len() as int + b.len() + c.len(), s.len() as int) =~= d);
}

/// A Comment block for `comment` (nothing where there is none) at `pos`
/// installs its text and moves past it.
pub proof fn lemma_comment_part(s: Seq<u8>, pos: int, c: Collected, comment: Option<Seq<u8>>)
    requires
        0 <= pos,
        pos + comment_part(comment).len() <= s.len(),
        s.subrange(pos, pos + comment_part(comment).len()) == comment_part(comment),
        comment is Some ==> comment->Some_0.len() <= u32::MAX && valid_utf8(comment->Some_0),
    ensures
        blocks_from(s, pos, c) == blocks_from(
            s,
            pos + comment_part(comment).len(),
            match comment {
                Some(t) => Collected { comment: Some(decode_utf8(t)), ..c },
                None => c,
            },
        ),
{
    if let Some(t) = comment {
        lemma_comment_step(s, pos, c, t);
    }
}

/// The stream `image_stream` builds from valid parts decodes to exactly those
/// parts, wherever its Comment block stands: the header's width, height and
/// pixel type, the comment's text if there is one, and the data bytes.
pub proof fn lemma_valid_stream_decodes(
    width: u32,
    height: u32,
    code: u8,
    comment: Option<Seq<u8>>,
    place: CommentPlace,
    data: Seq<u8>,
)
    requires
        code <= 3,
        data.len() <= u32::MAX,
        data.len() == (width as int * height as int) / 8,
        comment is Some ==> comment->Some_0.len() <= u32::MAX && valid_utf8(comment->Some_0),
    ensures
        decode_stream(image_stream(width, height, code, comment, place, data)) == Ok::<
            ImageModel,
            ParsingError,
        >(
            ImageModel {
                header: MPNGHeader { width, height, pixel_type: pixel_type_of(code) },
                comment: match comment {
                    Some(t) => Some(decode_utf8(t)),
                    None => None,
                },
                data,
            },
        ),
{
    let s = image_stream(width, height, code, comment, place, data);
    let m = magic_seq();
    let hb = header_block(width, height, code);
    let cb = comment_part(comment);
    let db = tagged_block(TAG_DATA, data);
    let h = MPNGHeader { width, height, pixel_type: pixel_type_of(code) };
    let cm = match comment {
        Some(t) => Some(decode_utf8(t)),
        None => None,
    };
    let c0 = collected_empty();
    let done = Collected { header: Some(h), comment: cm, data: Some(data) };
    let n = s.len() as int;
    match place {
        CommentPlace::BeforeHeader => {
            lemma_four_parts(m, cb, hb, db);
            let p1 = 8 + cb.len() as int;
            let c1 = Collected { comment: cm, ..c0 };
            lemma_comment_part(s, 8, c0, comment);
            let c2 = Collected { header: Some(h), ..c1 };
            lemma_header_step(s, p1, c1, width, height, code);
            lemma_data_step(s, p1 + 14, c2, data);
            assert(blocks_from(s, n, done) == Ok::<Collected, ParsingError>(done));
            assert(blocks_from(s, p1 + 14, c2) == Ok::<Collected, ParsingError>(done));
            assert(blocks_from(s, p1, c1) == Ok::<Collected, ParsingError>(done));
        },
        CommentPlace::AfterHeader => {
            lemma_four_parts(m, hb, cb, db);
            let c1 = Collected { header: Some(h), ..c0 };
            lemma_header_step(s, 8, c0, width, height, code);
            let p2 = 22 + cb.len() as int;
            let c2 = Collected { comment: cm, ..c1 };
            lemma_comment_part(s, 22, c1, comment);
            lemma_data_step(s, p2, c2, data);
            assert(blocks_from(s, n, done) == Ok::<Collected, ParsingError>(done));
            assert(blocks_from(s, p2, c2) == Ok::<Collected, ParsingError>(done));
            assert(blocks_from(s, 8, c0) == Ok::<Collected, ParsingError>(done));
        },
        CommentPlace::AfterData => {
            lemma_four_parts(m, hb, db, cb);
            let c1 = Collected { header: Some(h), ..c0 };
            lemma_header_step(s, 8, c0, width, height, code);
            let p2 = 22 + db.len() as int;
            let c2 = Collected { data: Some(data), ..c1 };
            lemma_data_step(s, 22, c1, data);
            lemma_comment_part(s, p2, c2, comment);
            assert(blocks_from(s, n, done) == Ok::<Collected, ParsingError>(done));
            assert(blocks_from(s, 22, c1) == Ok::<Collected, ParsingError>(done));
        },
    }
    assert(s.subrange(0, 8) == m);
}

/// Decoding is a function of the bytes alone: two decodes of the same bytes
/// give equal results.
pub proof fn lemma_decode_twice(
    a: Seq<u8>,
    b: Seq<u8>,
    ra: Result<MPNG, ParsingError>,
    rb: Result<MPNG, ParsingError>,
)
    requires
        a == b,
        result_view(ra) == decode_stream(a),
        result_view(rb) == decode_stream(b),
    ensures
        result_view(ra) == result_view(rb),
{
}

/// A stream of at least eight bytes that differs from the magic prefix at
/// some position `i` below 8 fails with `InvalidMagicNumber`.
pub proof fn lemma_wrong_magic(s: Seq<u8>, i: int)
    requires
        s.len() >= 8,
        0 <= i < 8,
        s[i] != magic_seq()[i],
    ensures
        decode_stream(s) == Err::<ImageModel, ParsingError>(ParsingError::InvalidMagicNumber),
{
    assert(s.subrange(0, 8)[i] == s[i]);
}

/// Where the blocks from `pos` reach `target` with `c2` collected, decoding
/// from `pos` ends as decoding from `target` with `c2` does.
pub proof fn lemma_blocks_until(s: Seq<u8>, pos: int, c: Collected, target: int, c2: Collected)
    requires
        blocks_until(s, pos, c, target) == Some(c2),
    ensures
        blocks_from(s, pos, c) == blocks_from(s, target, c2),
    decreases s.len() - pos,
{
    if pos != target {
        assert(0 <= pos < s.len() && block_step(s, pos, c) is Ok);
        lemma_block_step_advances(s, pos, c);
        let next = block_step(s, pos, c)->Ok_0.0;
        let c3 = block_step(s, pos, c)->Ok_0.1;
        assert(blocks_until(s, pos, c, target) == blocks_until(s, next, c3, target));
        lemma_blocks_until(s, next, c3, target, c2);
    }
}

/// Where decoding reaches a block that fails, the decode fails with the
/// same error.
pub proof fn lemma_block_fails(s: Seq<u8>, pos: int, c: Collected, e: ParsingError)
    requires
        reaches(s, pos, c),
        pos < s.len(),
        block_step(s, pos, c) == Err::<(int, Collected), ParsingError>(e),
    ensures
        decode_stream(s) == Err::<ImageModel, ParsingError>(e),
{
    lemma_blocks_until(s, 8, collected_empty(), pos, c);
}

/// A Header block that declares a length other than 9 fails with
/// `InvalidHeaderBlockLength`, carrying that length.
pub proof fn lemma_header_length_rejected(s: Seq<u8>, pos: int, c: Collected, length: u32)
    requires
        reaches(s, pos, c),
        pos + 5 <= s.len(),
        s[pos] == TAG_HEADER,
        s.subrange(pos + 1, pos + 5) == be_bytes(length),
        length != HEADER_LENGTH,
    ensures
        decode_stream(s) == Err::<ImageModel, ParsingError>(
            ParsingError::InvalidHeaderBlockLength(length),
        ),
{
    lemma_blocks_until(s, 8, collected_empty(), pos, c);
    reveal(block_step);
    lemma_be_u32_at(s, pos + 1, length);
    lemma_block_fails(s, pos, c, ParsingError::InvalidHeaderBlockLength(length));
}

/// A Header block whose pixel-type code is 4 or more fails with
/// `InvalidHeaderPixelType`, carrying that code.
pub proof fn lemma_pixel_type_rejected(
    s: Seq<u8>,
    pos: int,
    c: Collected,
    width: u32,
    height: u32,
    code: u8,
)
    requires
        reaches(s, pos, c),
        pos + 14 <= s.len(),
        s.subrange(pos, pos + 14) == header_block(width, height, code),
        code > 3,
    ensures
        decode_stream(s) == Err::<ImageModel, ParsingError>(
            ParsingError::InvalidHeaderPixelType(code),
        ),
{
    lemma_blocks_until(s, 8, collected_empty(), pos, c);
    reveal(block_step);
    let t = header_block(width, height, code);
    lemma_piece(s, pos, t, 1, 5);
    assert(t.subrange(1, 5) =~= be_bytes(9));
    lemma_be_u32_at(s, pos + 1, 9);
    assert(s[pos] == s.subrange(pos, pos + 14)[0]);
    assert(s[pos + 13] == s.subrange(pos, pos + 14)[13]);
    lemma_block_fails(s, pos, c, ParsingError::InvalidHeaderPixelType(code));
}

/// The codes 0 to 3 name distinct pixel types and each reads back as itself.
pub proof fn lemma_pixel_code_round_trip(code: u8)
    requires
        code <= 3,
    ensures
        pixel_type_code(pixel_type_of(code)) == code,
{
}

/// A Data block whose declared length is not width * height / 8 of the
/// header collected before it fails with `InvalidDataBlockConsistency`.
pub proof fn lemma_data_length_rejected(s: Seq<u8>, pos: int, c: Collected, length: u32)
    requires
        reaches(s, pos, c),
        pos + 5 <= s.len(),
        c.header is Some,
        s[pos] == TAG_DATA,
        s.subrange(pos + 1, pos + 5) == be_bytes(length),
        length as int != expected_data_length(c.header->Some_0),
    ensures
        decode_stream(s) == Err::<ImageModel, ParsingError>(
            ParsingError::InvalidDataBlockConsistency {
                expected: expected_data_length(c.header->Some_0) as u64,
                found: length,
            },
        ),
{
    lemma_blocks_until(s, 8, collected_empty(), pos, c);
    reveal(block_step);
    lemma_be_u32_at(s, pos + 1, length);
    lemma_block_fails(
        s,
        pos,
        c,
        ParsingError::InvalidDataBlockConsistency {
            expected: expected_data_length(c.header->Some_0) as u64,
            found: length,
        },
    );
}

/// A Data block reached with no Header collected before it fails with
/// `MissingHeader`.
pub proof fn lemma_data_without_header(s: Seq<u8>, pos: int, c: Collected)
    requires
        reaches(s, pos, c),
        pos + 5 <= s.len(),
        c.header is None,
        s[pos] == TAG_DATA,
    ensures
        decode_stream(s) == Err::<ImageModel, ParsingError>(ParsingError::MissingHeader),
{
    lemma_blocks_until(s, 8, collected_empty(), pos, c);
    reveal(block_step);
    lemma_block_fails(s, pos, c, ParsingError::MissingHeader);
}

/// The magic prefix, a Comment block and then a Data block, with no Header,
/// fail with `MissingHeader`.
pub proof fn lemma_comment_then_data(s: Seq<u8>, text: Seq<u8>)
    requires
        text.len() <= u32::MAX,
        s.len() >= 18 + text.len(),
        s.subrange(0, 8) == magic_seq(),
        s.subrange(8, 13 + text.len() as int) == tagged_block(TAG_COMMENT, text),
        valid_utf8(text),
        s[13 + text.len() as int] == TAG_DATA,
    ensures
        decode_stream(s) == Err::<ImageModel, ParsingError>(ParsingError::MissingHeader),
{
    let c0 = collected_empty();
    let pos: int = 13 + text.len() as int;
    let c1 = Collected { comment: Some(decode_utf8(text)), ..c0 };
    lemma_comment_step(s, 8, c0, text);
    assert(blocks_until(s, pos, c1, pos) == Some(c1));
    assert(reaches(s, pos, c1));
    lemma_data_without_header(s, pos, c1);
}

/// A stream of the magic prefix and one valid Header block fails with
/// `MissingData`.
pub proof fn lemma_header_only(width: u32, height: u32, code: u8)
    requires
        code <= 3,
    ensures
        decode_stream(magic_seq() + header_block(width, height, code)) == Err::<
            ImageModel,
            ParsingError,
        >(ParsingError::MissingData),
{
    let s = magic_seq() + header_block(width, height, code);
    lemma_block_at(Seq::empty(), magic_seq(), header_block(width, height, code));
    assert(Seq::<u8>::empty() + magic_seq() + header_block(width, height, code) =~= s);
    lemma_block_at(magic_seq(), header_block(width, height, code), Seq::empty());
    assert(magic_seq() + header_block(width, height, code) + Seq::<u8>::empty() =~= s);
    let c0 = collected_empty();
    let c1 = Collected {
        header: Some(MPNGHeader { width, height, pixel_type: pixel_type_of(code) }),
        ..c0
    };
    lemma_header_step(s, 8, c0, width, height, code);
    assert(blocks_from(s, 22, c1) == Ok::<Collected, ParsingError>(c1));
    assert(blocks_from(s, 8, c0) == Ok::<Collected, ParsingError>(c1));
}

/// A block tag followed by fewer than four bytes, so that its length field is
/// cut off, fails with `UnexpectedEndOfInput`.
pub proof fn lemma_truncated_length(s: Seq<u8>, pos: int, c: Collected)
    requires
        reaches(s, pos, c),
        pos < s.len() < pos + 5,
        s[pos] == TAG_HEADER || s[pos] == TAG_COMMENT || s[pos] == TAG_DATA,
    ensures
        decode_stream(s) == Err::<ImageModel, ParsingError>(ParsingError::UnexpectedEndOfInput),
{
    lemma_blocks_until(s, 8, collected_empty(), pos, c);
    reveal(block_step);
    lemma_block_fails(s, pos, c, ParsingError::UnexpectedEndOfInput);
}

/// A Header block cut off before its nine payload bytes end fails with
/// `UnexpectedEndOfInput`.
pub proof fn lemma_truncated_header(s: Seq<u8>, pos: int, c: Collected)
    requires
        reaches(s, pos, c),
        pos + 5 <= s.len() < pos + 14,
        s[pos] == TAG_HEADER,
        s.subrange(pos + 1, pos + 5) == be_bytes(HEADER_LENGTH),
    ensures
        decode_stream(s) == Err::<ImageModel, ParsingError>(ParsingError::UnexpectedEndOfInput),
{
    lemma_blocks_until(s, 8, collected_empty(), pos, c);
    reveal(block_step);
    lemma_be_u32_at(s, pos + 1, HEADER_LENGTH);
    lemma_block_fails(s, pos, c, ParsingError::UnexpectedEndOfInput);
}

} // verus!
