//! Laws of the decoder, proved from the functional specification.

use vstd::prelude::*;

use crate::blocks::char_record;
use crate::blocks::parse_chars_from;
use crate::bytes::le_u32;
use crate::decode::apply_block;
use crate::decode::decode_blocks;
use crate::decode::decode_spec;
use crate::decode::magic;
use crate::font::empty_font;
use crate::font::Char;
use crate::font::DecodeError;
use crate::font::FontView;

verus! {

/// The little-endian bytes of a 32-bit length field.
pub open spec fn le_bytes_of(n: u32) -> Seq<u8> {
    seq![
        (n % 256) as u8,
        ((n / 256) % 256) as u8,
        ((n / 65536) % 256) as u8,
        ((n / 16777216) % 256) as u8,
    ]
}

/// Reading back the little-endian bytes of `n` gives `n`.
pub proof fn lemma_le_bytes_of(n: u32)
    ensures
        le_u32(le_bytes_of(n)[0], le_bytes_of(n)[1], le_bytes_of(n)[2], le_bytes_of(n)[3]) == n,
{
    let ni = n as int;
    let q1 = ni / 256;
    let q2 = ni / 65536;
    let q3 = ni / 16777216;
    vstd::arithmetic::div_mod::lemma_fundamental_div_mod(ni, 256);
    vstd::arithmetic::div_mod::lemma_fundamental_div_mod(q1, 256);
    vstd::arithmetic::div_mod::lemma_fundamental_div_mod(q2, 256);
    vstd::arithmetic::div_mod::lemma_div_denominator(ni, 256, 256);
    vstd::arithmetic::div_mod::lemma_div_denominator(ni, 65536, 256);
    assert(q1 / 256 == q2);
    assert(q2 / 256 == q3);
    vstd::arithmetic::div_mod::lemma_fundamental_div_mod(ni, 16777216);
    assert(0 <= q3 < 256);
    vstd::arithmetic::div_mod::lemma_small_mod(q3 as nat, 256);
    assert(ni % 256 + ((ni / 256) % 256) * 256 + ((ni / 65536) % 256) * 65536 + ((ni / 16777216)
        % 256) * 16777216 == ni);
}

/// One whole block as it stands in a buffer: the tag, the little-endian
/// length of the payload, then the payload itself.
pub open spec fn block_bytes(tag: u8, payload: Seq<u8>) -> Seq<u8>
    recommends
        payload.len() < 0x1_0000_0000,
{
    seq![tag] + le_bytes_of(payload.len() as u32) + payload
}

/// What the block loop yields once one block has been applied: the rest of
/// the buffer parsed from the updated descriptor, or that block's error.
pub open spec fn after_block(tag: u8, payload: Seq<u8>, rest: Seq<u8>, acc: FontView) -> Result<
    FontView,
    DecodeError,
> {
    match apply_block(tag, payload, acc) {
        Ok(acc2) => decode_blocks(rest, acc2),
        Err(e) => Err(e),
    }
}

/// The block loop consumes exactly one whole block per step: a buffer that
/// starts with a complete block decodes as that block applied to the
/// descriptor so far, followed by the rest of the buffer. Skipping a block
/// never desynchronizes the loop's position.
pub proof fn lemma_block_step(tag: u8, payload: Seq<u8>, rest: Seq<u8>, acc: FontView)
    requires
        payload.len() < 0x1_0000_0000,
    ensures
        decode_blocks(block_bytes(tag, payload) + rest, acc) == after_block(
            tag,
            payload,
            rest,
            acc,
        ),
{
    let s = block_bytes(tag, payload) + rest;
    let n = payload.len() as u32;
    lemma_le_bytes_of(n);
    assert(s[0] == tag);
    assert(s[1] == le_bytes_of(n)[0] && s[2] == le_bytes_of(n)[1] && s[3] == le_bytes_of(n)[2]
        && s[4] == le_bytes_of(n)[3]);
    let size = le_u32(s[1], s[2], s[3], s[4]) as int;
    assert(size == payload.len());
    assert(s.subrange(5, 5 + size) =~= payload);
    assert(s.skip(5 + size) =~= rest);
}

/// A buffer that is the magic signature and nothing else decodes to the
/// descriptor with no info, no common, and every collection empty.
pub proof fn lemma_header_only_decodes_empty(data: Seq<u8>)
    requires
        data.len() == 4,
        data.subrange(0, 4) == magic(),
    ensures
        decode_spec(data) == Ok::<FontView, DecodeError>(empty_font()),
{
    assert(data.skip(4) =~= Seq::<u8>::empty());
}

/// A buffer that starts with the magic signature decodes as its block
/// sequence alone, starting from the empty descriptor: header validation
/// consumes exactly the four magic bytes.
pub proof fn lemma_decode_after_header(blocks: Seq<u8>)
    ensures
        decode_spec(magic() + blocks) == decode_blocks(blocks, empty_font()),
{
    let data = magic() + blocks;
    assert(data.subrange(0, 4) =~= magic());
    assert(data.skip(4) =~= blocks);
}

/// A buffer whose first four bytes are not the magic signature fails with
/// `InvalidHeader`, whatever follows them.
pub proof fn lemma_invalid_header(data: Seq<u8>)
    requires
        data.len() < 4 || data.subrange(0, 4) != magic(),
    ensures
        decode_spec(data) == Err::<FontView, DecodeError>(DecodeError::InvalidHeader),
{
}

/// A chars payload whose size is not a multiple of the record size leaves a
/// partial record at its end, whatever glyphs were folded in before.
pub proof fn lemma_chars_payload_misaligned(b: Seq<u8>, acc: Map<u32, Char>)
    requires
        b.len() % 20 != 0,
    ensures
        parse_chars_from(b, acc) == Err::<Map<u32, Char>, DecodeError>(DecodeError::TruncatedBlock),
    decreases b.len(),
{
    if b.len() >= 20 {
        assert(b.skip(20).len() % 20 != 0);
        lemma_chars_payload_misaligned(b.skip(20), acc.insert(char_record(b).id, char_record(b)));
    }
}

/// A whole buffer holding a chars block of size not a multiple of the record
/// size fails with `TruncatedBlock`, whatever came before or follows.
pub proof fn lemma_chars_block_misaligned(payload: Seq<u8>, rest: Seq<u8>, acc: FontView)
    requires
        payload.len() % 20 != 0,
        payload.len() < 0x1_0000_0000,
    ensures
        decode_blocks(block_bytes(4, payload) + rest, acc) == Err::<FontView, DecodeError>(
            DecodeError::TruncatedBlock,
        ),
{
    lemma_block_step(4, payload, rest, acc);
    lemma_chars_payload_misaligned(payload, Map::empty());
}

/// Decoding a whole buffer that holds a chars block of size not a multiple
/// of the record size fails with `TruncatedBlock`.
pub proof fn lemma_decode_chars_misaligned(payload: Seq<u8>, rest: Seq<u8>)
    requires
        payload.len() % 20 != 0,
        payload.len() < 0x1_0000_0000,
    ensures
        decode_spec(magic() + (block_bytes(4, payload) + rest)) == Err::<FontView, DecodeError>(
            DecodeError::TruncatedBlock,
        ),
{
    lemma_decode_after_header(block_bytes(4, payload) + rest);
    lemma_chars_block_misaligned(payload, rest, empty_font());
}

/// A later chars block entirely replaces an earlier one: after two chars
/// blocks in a row, the glyph mapping is that of the second payload alone,
/// whatever the first held.
pub proof fn lemma_second_chars_block_wins(p1: Seq<u8>, p2: Seq<u8>, rest: Seq<u8>, acc: FontView)
    requires
        p1.len() < 0x1_0000_0000,
        p2.len() < 0x1_0000_0000,
        parse_chars_from(p1, Map::empty()) is Ok,
    ensures
        decode_blocks(block_bytes(4, p1) + (block_bytes(4, p2) + rest), acc) == after_block(
            4,
            p2,
            rest,
            acc,
        ),
{
    lemma_block_step(4, p1, block_bytes(4, p2) + rest, acc);
    let m1 = parse_chars_from(p1, Map::empty())->Ok_0;
    let acc1 = FontView { chars: m1, ..acc };
    lemma_block_step(4, p2, rest, acc1);
    match parse_chars_from(p2, Map::empty()) {
        Ok(m2) => {
            assert(FontView { chars: m2, ..acc1 } =~= FontView { chars: m2, ..acc });
        },
        Err(_) => {},
    }
}

/// A block with an unrecognized tag is skipped whole: it changes nothing and
/// decoding continues right after its payload.
pub proof fn lemma_unknown_tag_skipped(tag: u8, payload: Seq<u8>, rest: Seq<u8>, acc: FontView)
    requires
        !(1 <= tag <= 5),
        payload.len() < 0x1_0000_0000,
    ensures
        decode_blocks(block_bytes(tag, payload) + rest, acc) == decode_blocks(rest, acc),
{
    lemma_block_step(tag, payload, rest, acc);
}

} // verus!
