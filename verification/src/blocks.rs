//! The five per-block decoders, each with a functional specification.
//!
//! Every block kind has a spec function giving the exact mathematical result
//! of decoding a payload, and an executable decoder proved to return it.

use std::collections::HashMap;
use vstd::prelude::*;

use crate::bytes::le_i16;
use crate::bytes::le_u16;
use crate::bytes::le_u32;
use crate::bytes::read_i16;
use crate::bytes::read_u16;
use crate::bytes::read_u32;
use crate::bytes::subvec;
use crate::font::Char;
use crate::font::CommonBlock;
use crate::font::DecodeError;
use crate::font::InfoBlock;
use crate::font::InfoView;
use crate::font::KerningPair;
use crate::text::bytes_to_string;
use crate::text::strip_trailing_nuls;
use crate::text::trim_trailing_nuls;
use crate::text::utf8_decoding;

verus! {

broadcast use vstd::std_specs::hash::group_hash_axioms;

/// Bytes of the fixed part of an info block, before the font name.
pub const INFO_FIXED_SIZE: usize = 14;

/// Bytes of a common block.
pub const COMMON_SIZE: usize = 15;

/// Bytes of one glyph record in a chars block.
pub const CHAR_RECORD_SIZE: usize = 20;

/// Bytes of one kerning record in a kerning block.
pub const KERNING_RECORD_SIZE: usize = 10;

// ---------------------------------------------------------------------------
// Info
// ---------------------------------------------------------------------------

/// What decoding an info payload yields: the fixed fields at their offsets,
/// then every remaining byte read as UTF-8 with trailing NULs stripped.
pub open spec fn parse_info_spec(b: Seq<u8>) -> Result<InfoView, DecodeError> {
    if b.len() < INFO_FIXED_SIZE {
        Err(DecodeError::TruncatedBlock)
    } else {
        match utf8_decoding(b.skip(INFO_FIXED_SIZE as int)) {
            None => Err(DecodeError::InvalidEncoding),
            Some(cs) => Ok(
                InfoView {
                    font_size: le_i16(b[0], b[1]),
                    bit_field: b[2],
                    char_set: b[3],
                    stretch_h: le_u16(b[4], b[5]),
                    aa: b[6],
                    padding: seq![b[7], b[8], b[9], b[10]],
                    spacing: seq![b[11], b[12]],
                    outline: b[13],
                    font_name: strip_trailing_nuls(cs),
                },
            ),
        }
    }
}

/// The view of a decoded info block, errors unchanged.
pub open spec fn info_result_view(r: Result<InfoBlock, DecodeError>) -> Result<
    InfoView,
    DecodeError,
> {
    match r {
        Ok(i) => Ok(i@),
        Err(e) => Err(e),
    }
}

/// Decodes an info payload.
pub fn parse_info_block(data: &[u8]) -> (r: Result<InfoBlock, DecodeError>)
    ensures
        info_result_view(r) == parse_info_spec(data@),
{
    if data.len() < INFO_FIXED_SIZE {
        return Err(DecodeError::TruncatedBlock);
    }
    let name_bytes = subvec(data, INFO_FIXED_SIZE, data.len());
    proof {
        assert(name_bytes@ =~= data@.skip(INFO_FIXED_SIZE as int));
    }
    let decoded = match bytes_to_string(name_bytes) {
        Some(s) => s,
        None => {
            return Err(DecodeError::InvalidEncoding);
        },
    };
    let font_name = trim_trailing_nuls(decoded);
    let info = InfoBlock {
        font_size: read_i16(data, 0),
        bit_field: data[2],
        char_set: data[3],
        stretch_h: read_u16(data, 4),
        aa: data[6],
        padding: [data[7], data[8], data[9], data[10]],
        spacing: [data[11], data[12]],
        outline: data[13],
        font_name,
    };
    proof {
        assert(info@.padding =~= seq![data@[7], data@[8], data@[9], data@[10]]);
        assert(info@.spacing =~= seq![data@[11], data@[12]]);
    }
    Ok(info)
}

// ---------------------------------------------------------------------------
// Common
// ---------------------------------------------------------------------------

/// What decoding a common payload yields: ten fixed fields at their offsets.
pub open spec fn parse_common_spec(b: Seq<u8>) -> Result<CommonBlock, DecodeError> {
    if b.len() < COMMON_SIZE {
        Err(DecodeError::TruncatedBlock)
    } else {
        Ok(
            CommonBlock {
                line_height: le_u16(b[0], b[1]),
                base: le_u16(b[2], b[3]),
                scale_w: le_u16(b[4], b[5]),
                scale_h: le_u16(b[6], b[7]),
                pages: le_u16(b[8], b[9]),
                bit_field: b[10],
                alpha_chnl: b[11],
                red_chnl: b[12],
                green_chnl: b[13],
                blue_chnl: b[14],
            },
        )
    }
}

/// Decodes a common payload.
pub fn parse_common_block(data: &[u8]) -> (r: Result<CommonBlock, DecodeError>)
    ensures
        r == parse_common_spec(data@),
{
    if data.len() < COMMON_SIZE {
        return Err(DecodeError::TruncatedBlock);
    }
    Ok(
        CommonBlock {
            line_height: read_u16(data, 0),
            base: read_u16(data, 2),
            scale_w: read_u16(data, 4),
            scale_h: read_u16(data, 6),
            pages: read_u16(data, 8),
            bit_field: data[10],
            alpha_chnl: data[11],
            red_chnl: data[12],
            green_chnl: data[13],
            blue_chnl: data[14],
        },
    )
}

// ---------------------------------------------------------------------------
// Pages
// ---------------------------------------------------------------------------

/// Length of the first NUL-terminated run of `b`: everything up to and
/// including the first zero byte, or all of `b` if it has none.
pub open spec fn run_length(b: Seq<u8>) -> int
    decreases b.len(),
{
    if b.len() == 0 {
        0
    } else if b[0] == 0 {
        1
    } else {
        1 + run_length(b.skip(1))
    }
}

/// A nonempty sequence has a nonempty first run, and the run stays inside it.
pub proof fn lemma_run_length_bounds(b: Seq<u8>)
    requires
        b.len() > 0,
    ensures
        1 <= run_length(b) <= b.len(),
    decreases b.len(),
{
    if b[0] != 0 {
        if b.skip(1).len() > 0 {
            lemma_run_length_bounds(b.skip(1));
        } else {
            reveal_with_fuel(run_length, 2);
        }
    }
}

/// The first run ends right after the first zero byte, or at the end of `b`
/// when `b` has no zero byte. `j` is where a left-to-right scan stopped.
pub proof fn lemma_run_length_scan(b: Seq<u8>, j: int)
    requires
        0 <= j <= b.len(),
        forall|i: int| 0 <= i < j ==> b[i] != 0,
        j < b.len() ==> b[j] == 0,
    ensures
        run_length(b) == if j < b.len() {
            j + 1
        } else {
            j
        },
    decreases b.len(),
{
    if b.len() > 0 && b[0] != 0 {
        lemma_run_length_scan(b.skip(1), j - 1);
    }
}

/// What decoding a pages payload yields: one name per NUL-terminated run,
/// in encounter order, each read as UTF-8 with trailing NULs stripped.
pub open spec fn parse_pages_spec(b: Seq<u8>) -> Result<Seq<Seq<char>>, DecodeError>
    decreases b.len(),
    via parse_pages_spec_decreases
{
    if b.len() == 0 {
        Ok(Seq::empty())
    } else {
        let k = run_length(b);
        match utf8_decoding(b.take(k)) {
            None => Err(DecodeError::InvalidEncoding),
            Some(cs) => match parse_pages_spec(b.skip(k)) {
                Err(e) => Err(e),
                Ok(rest) => Ok(seq![strip_trailing_nuls(cs)] + rest),
            },
        }
    }
}

#[via_fn]
proof fn parse_pages_spec_decreases(b: Seq<u8>) {
    if b.len() != 0 {
        lemma_run_length_bounds(b);
    }
}

/// The view of a decoded page list, errors unchanged.
pub open spec fn pages_result_view(r: Result<Vec<String>, DecodeError>) -> Result<
    Seq<Seq<char>>,
    DecodeError,
> {
    match r {
        Ok(pages) => Ok(pages@.map_values(|s: String| s@)),
        Err(e) => Err(e),
    }
}

/// Scans for the end of the first NUL-terminated run starting at `start`.
fn find_run_end(data: &[u8], start: usize) -> (end: usize)
    requires
        start <= data@.len(),
    ensures
        start <= end <= data@.len(),
        end - start == run_length(data@.skip(start as int)),
{
    let mut j: usize = start;
    while j < data.len()
        invariant
            start <= j <= data@.len(),
            forall|i: int| start <= i < j ==> data@[i] != 0,
        decreases data@.len() - j,
    {
        if data[j] == 0 {
            proof {
                lemma_run_length_scan(data@.skip(start as int), j - start);
            }
            return j + 1;
        }
        j = j + 1;
    }
    proof {
        lemma_run_length_scan(data@.skip(start as int), j - start);
    }
    j
}

/// Decodes a pages payload.
pub fn parse_pages_block(data: &[u8]) -> (r: Result<Vec<String>, DecodeError>)
    ensures
        pages_result_view(r) == parse_pages_spec(data@),
{
    let ghost f = |s: String| s@;
    let mut pages: Vec<String> = Vec::new();
    let mut pos: usize = 0;
    proof {
        assert(data@.skip(0) =~= data@);
        assert(pages@.map_values(f) =~= Seq::<Seq<char>>::empty());
        match parse_pages_spec(data@) {
            Ok(rest) => {
                assert(pages@.map_values(f) + rest =~= rest);
            },
            Err(_) => {},
        }
    }
    while pos < data.len()
        invariant
            pos <= data@.len(),
            parse_pages_spec(data@) == match parse_pages_spec(data@.skip(pos as int)) {
                Ok(rest) => Ok::<Seq<Seq<char>>, DecodeError>(pages@.map_values(f) + rest),
                Err(e) => Err(e),
            },
            f == (|s: String| s@),
        decreases data@.len() - pos,
    {
        let ghost b = data@.skip(pos as int);
        proof {
            lemma_run_length_bounds(b);
        }
        let end = find_run_end(data, pos);
        let run = subvec(data, pos, end);
        proof {
            assert(run@ =~= b.take(run_length(b)));
        }
        let decoded = match bytes_to_string(run) {
            Some(s) => s,
            None => {
                return Err(DecodeError::InvalidEncoding);
            },
        };
        let name = trim_trailing_nuls(decoded);
        let ghost old_pages = pages@;
        pages.push(name);
        proof {
            assert(b.skip(run_length(b)) =~= data@.skip(end as int));
            assert(pages@.map_values(f) =~= old_pages.map_values(f) + seq![name@]);
            match parse_pages_spec(data@.skip(end as int)) {
                Ok(rest2) => {
                    assert(old_pages.map_values(f) + (seq![name@] + rest2) =~= pages@.map_values(f)
                        + rest2);
                },
                Err(_) => {},
            }
        }
        pos = end;
    }
    proof {
        assert(data@.skip(pos as int) =~= Seq::<u8>::empty());
        match parse_pages_spec(data@.skip(pos as int)) {
            Ok(rest) => {
                assert(pages@.map_values(f) + rest =~= pages@.map_values(f));
            },
            Err(_) => {},
        }
    }
    Ok(pages)
}

// ---------------------------------------------------------------------------
// Chars
// ---------------------------------------------------------------------------

/// The glyph record stored in the first twenty bytes of `b`.
pub open spec fn char_record(b: Seq<u8>) -> Char {
    Char {
        id: le_u32(b[0], b[1], b[2], b[3]),
        x: le_u16(b[4], b[5]),
        y: le_u16(b[6], b[7]),
        width: le_u16(b[8], b[9]),
        height: le_u16(b[10], b[11]),
        x_offset: le_i16(b[12], b[13]),
        y_offset: le_i16(b[14], b[15]),
        x_advance: le_i16(b[16], b[17]),
        page: b[18],
        chnl: b[19],
    }
}

/// Folds the glyph records of `b` into `acc`, twenty bytes at a time;
/// a later record with the same id overwrites an earlier one.
pub open spec fn parse_chars_from(b: Seq<u8>, acc: Map<u32, Char>) -> Result<
    Map<u32, Char>,
    DecodeError,
>
    decreases b.len(),
{
    if b.len() == 0 {
        Ok(acc)
    } else if b.len() < CHAR_RECORD_SIZE {
        Err(DecodeError::TruncatedBlock)
    } else {
        parse_chars_from(
            b.skip(CHAR_RECORD_SIZE as int),
            acc.insert(char_record(b).id, char_record(b)),
        )
    }
}

/// What decoding a chars payload yields, starting from an empty mapping.
pub open spec fn parse_chars_spec(b: Seq<u8>) -> Result<Map<u32, Char>, DecodeError> {
    parse_chars_from(b, Map::empty())
}

/// The view of a decoded glyph mapping, errors unchanged.
pub open spec fn chars_result_view(r: Result<HashMap<u32, Char>, DecodeError>) -> Result<
    Map<u32, Char>,
    DecodeError,
> {
    match r {
        Ok(m) => Ok(m@),
        Err(e) => Err(e),
    }
}

/// Decodes a chars payload.
pub fn parse_chars_block(data: &[u8]) -> (r: Result<HashMap<u32, Char>, DecodeError>)
    ensures
        chars_result_view(r) == parse_chars_spec(data@),
{
    let mut chars: HashMap<u32, Char> = HashMap::new();
    let mut pos: usize = 0;
    proof {
        assert(data@.skip(0) =~= data@);
    }
    while pos < data.len()
        invariant
            pos <= data@.len(),
            parse_chars_from(data@.skip(pos as int), chars@) == parse_chars_spec(data@),
        decreases data@.len() - pos,
    {
        if data.len() - pos < CHAR_RECORD_SIZE {
            return Err(DecodeError::TruncatedBlock);
        }
        let ch = Char {
            id: read_u32(data, pos),
            x: read_u16(data, pos + 4),
            y: read_u16(data, pos + 6),
            width: read_u16(data, pos + 8),
            height: read_u16(data, pos + 10),
            x_offset: read_i16(data, pos + 12),
            y_offset: read_i16(data, pos + 14),
            x_advance: read_i16(data, pos + 16),
            page: data[pos + 18],
            chnl: data[pos + 19],
        };
        proof {
            assert(ch == char_record(data@.skip(pos as int)));
            assert(data@.skip(pos as int).skip(CHAR_RECORD_SIZE as int) =~= data@.skip(
                pos + CHAR_RECORD_SIZE,
            ));
        }
        chars.insert(ch.id, ch);
        pos = pos + CHAR_RECORD_SIZE;
    }
    Ok(chars)
}

// ---------------------------------------------------------------------------
// Kerning pairs
// ---------------------------------------------------------------------------

/// The kerning record stored in the first ten bytes of `b`.
pub open spec fn kerning_record(b: Seq<u8>) -> KerningPair {
    KerningPair {
        first: le_u32(b[0], b[1], b[2], b[3]),
        second: le_u32(b[4], b[5], b[6], b[7]),
        amount: le_i16(b[8], b[9]),
    }
}

/// What decoding a kerning payload yields: its records in file order,
/// ten bytes each, duplicates kept.
pub open spec fn parse_kernings_spec(b: Seq<u8>) -> Result<Seq<KerningPair>, DecodeError>
    decreases b.len(),
{
    if b.len() == 0 {
        Ok(Seq::empty())
    } else if b.len() < KERNING_RECORD_SIZE {
        Err(DecodeError::TruncatedBlock)
    } else {
        match parse_kernings_spec(b.skip(KERNING_RECORD_SIZE as int)) {
            Err(e) => Err(e),
            Ok(rest) => Ok(seq![kerning_record(b)] + rest),
        }
    }
}

/// The view of a decoded kerning list, errors unchanged.
pub open spec fn kernings_result_view(r: Result<Vec<KerningPair>, DecodeError>) -> Result<
    Seq<KerningPair>,
    DecodeError,
> {
    match r {
        Ok(ks) => Ok(ks@),
        Err(e) => Err(e),
    }
}

/// Decodes a kerning payload.
pub fn parse_kerning_block(data: &[u8]) -> (r: Result<Vec<KerningPair>, DecodeError>)
    ensures
        kernings_result_view(r) == parse_kernings_spec(data@),
{
    let mut kernings: Vec<KerningPair> = Vec::new();
    let mut pos: usize = 0;
    proof {
        assert(data@.skip(0) =~= data@);
        match parse_kernings_spec(data@) {
            Ok(rest) => {
                assert(kernings@ + rest =~= rest);
            },
            Err(_) => {},
        }
    }
    while pos < data.len()
        invariant
            pos <= data@.len(),
            parse_kernings_spec(data@) == match parse_kernings_spec(data@.skip(pos as int)) {
                Ok(rest) => Ok::<Seq<KerningPair>, DecodeError>(kernings@ + rest),
                Err(e) => Err(e),
            },
        decreases data@.len() - pos,
    {
        if data.len() - pos < KERNING_RECORD_SIZE {
            return Err(DecodeError::TruncatedBlock);
        }
        let pair = KerningPair {
            first: read_u32(data, pos),
            second: read_u32(data, pos + 4),
            amount: read_i16(data, pos + 8),
        };
        let ghost old_kernings = kernings@;
        kernings.push(pair);
        proof {
            assert(pair == kerning_record(data@.skip(pos as int)));
            assert(data@.skip(pos as int).skip(KERNING_RECORD_SIZE as int) =~= data@.skip(
                pos + KERNING_RECORD_SIZE,
            ));
            match parse_kernings_spec(data@.skip(pos + KERNING_RECORD_SIZE)) {
                Ok(rest2) => {
                    assert(old_kernings + (seq![pair] + rest2) =~= kernings@ + rest2);
                },
                Err(_) => {},
            }
        }
        pos = pos + KERNING_RECORD_SIZE;
    }
    proof {
        assert(data@.skip(pos as int) =~= Seq::<u8>::empty());
        match parse_kernings_spec(data@.skip(pos as int)) {
            Ok(rest) => {
                assert(kernings@ + rest =~= kernings@);
            },
            Err(_) => {},
        }
    }
    Ok(kernings)
}

} // verus!
