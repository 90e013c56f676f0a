//! Header validation and the tagged-block dispatch loop.
//!
//! [`decode_spec`] is the functional specification of the whole decoder;
//! [`BMFont::from_octets`] is the executable decoder, proved to return
//! exactly what the specification says for every input buffer.

use std::collections::HashMap;
use vstd::prelude::*;

use crate::blocks::parse_chars_block;
use crate::blocks::parse_chars_spec;
use crate::blocks::parse_common_block;
use crate::blocks::parse_common_spec;
use crate::blocks::parse_info_block;
use crate::blocks::parse_info_spec;
use crate::blocks::parse_kerning_block;
use crate::blocks::parse_kernings_spec;
use crate::blocks::parse_pages_block;
use crate::blocks::parse_pages_spec;
use crate::bytes::le_u32;
use crate::bytes::read_u32;
use crate::bytes::subvec;
use crate::font::empty_font;
use crate::font::BMFont;
use crate::font::DecodeError;
use crate::font::FontView;

verus! {

/// The magic signature every font buffer must start with: `B`, `M`, `F`, 3.
pub open spec fn magic() -> Seq<u8> {
    seq![66u8, 77u8, 70u8, 3u8]
}

/// How one block changes the descriptor built so far. A recognized tag
/// replaces the corresponding part wholesale; any other tag changes nothing.
pub open spec fn apply_block(tag: u8, payload: Seq<u8>, acc: FontView) -> Result<
    FontView,
    DecodeError,
> {
    if tag == 1 {
        match parse_info_spec(payload) {
            Ok(i) => Ok(FontView { info: Some(i), ..acc }),
            Err(e) => Err(e),
        }
    } else if tag == 2 {
        match parse_common_spec(payload) {
            Ok(c) => Ok(FontView { common: Some(c), ..acc }),
            Err(e) => Err(e),
        }
    } else if tag == 3 {
        match parse_pages_spec(payload) {
            Ok(p) => Ok(FontView { pages: p, ..acc }),
            Err(e) => Err(e),
        }
    } else if tag == 4 {
        match parse_chars_spec(payload) {
            Ok(m) => Ok(FontView { chars: m, ..acc }),
            Err(e) => Err(e),
        }
    } else if tag == 5 {
        match parse_kernings_spec(payload) {
            Ok(ks) => Ok(FontView { kernings: ks, ..acc }),
            Err(e) => Err(e),
        }
    } else {
        Ok(acc)
    }
}

/// What the block loop makes of the bytes after the header. An empty buffer
/// is normal termination; a tag byte whose length field or payload is cut
/// short is a truncation; otherwise one block is applied and the rest parsed.
pub open spec fn decode_blocks(b: Seq<u8>, acc: FontView) -> Result<FontView, DecodeError>
    decreases b.len(),
{
    if b.len() == 0 {
        Ok(acc)
    } else if b.len() < 5 {
        Err(DecodeError::TruncatedBlock)
    } else {
        let size = le_u32(b[1], b[2], b[3], b[4]) as int;
        if b.len() < 5 + size {
            Err(DecodeError::TruncatedBlock)
        } else {
            match apply_block(b[0], b.subrange(5, 5 + size), acc) {
                Err(e) => Err(e),
                Ok(acc2) => decode_blocks(b.skip(5 + size), acc2),
            }
        }
    }
}

/// What decoding a whole buffer yields: `InvalidHeader` unless the buffer
/// starts with the magic signature, else the result of the block loop over
/// the remainder, starting from the empty descriptor.
pub open spec fn decode_spec(data: Seq<u8>) -> Result<FontView, DecodeError> {
    if data.len() < 4 || data.subrange(0, 4) != magic() {
        Err(DecodeError::InvalidHeader)
    } else {
        decode_blocks(data.skip(4), empty_font())
    }
}

/// The view of a decode result, errors unchanged.
pub open spec fn font_result_view(r: Result<BMFont, DecodeError>) -> Result<
    FontView,
    DecodeError,
> {
    match r {
        Ok(f) => Ok(f@),
        Err(e) => Err(e),
    }
}

impl BMFont {
    /// Decodes a binary font buffer into a font descriptor, or reports the
    /// first failure. The result is exactly [`decode_spec`] of the buffer.
    pub fn from_octets(data: &[u8]) -> (r: Result<BMFont, DecodeError>)
        ensures
            font_result_view(r) == decode_spec(data@),
    {
        if data.len() < 4 {
            return Err(DecodeError::InvalidHeader);
        }
        if data[0] != 66 || data[1] != 77 || data[2] != 70 || data[3] != 3 {
            proof {
                assert(data@.subrange(0, 4) != magic()) by {
                    if data@[0] != 66 {
                        assert(data@.subrange(0, 4)[0] != magic()[0]);
                    } else if data@[1] != 77 {
                        assert(data@.subrange(0, 4)[1] != magic()[1]);
                    } else if data@[2] != 70 {
                        assert(data@.subrange(0, 4)[2] != magic()[2]);
                    } else {
                        assert(data@.subrange(0, 4)[3] != magic()[3]);
                    }
                }
            }
            return Err(DecodeError::InvalidHeader);
        }
        proof {
            assert(data@.subrange(0, 4) =~= magic());
        }
        let mut font = BMFont {
            info: None,
            common: None,
            pages: Vec::new(),
            chars: HashMap::new(),
            kernings: Vec::new(),
        };
        let mut pos: usize = 4;
        proof {
            assert(font@ =~= empty_font());
        }
        while pos < data.len()
            invariant
                4 <= pos <= data@.len(),
                decode_blocks(data@.skip(pos as int), font@) == decode_spec(data@),
            decreases data@.len() - pos,
        {
            let ghost b = data@.skip(pos as int);
            if data.len() - pos < 5 {
                return Err(DecodeError::TruncatedBlock);
            }
            let tag = data[pos];
            let size = read_u32(data, pos + 1) as usize;
            if size > data.len() - (pos + 5) {
                return Err(DecodeError::TruncatedBlock);
            }
            let payload = subvec(data, pos + 5, pos + 5 + size);
            proof {
                assert(b[0] == tag);
                assert(le_u32(b[1], b[2], b[3], b[4]) == size);
                assert(payload@ =~= b.subrange(5, 5 + size as int));
                assert(b.skip(5 + size as int) =~= data@.skip(pos + 5 + size));
            }
            let ghost acc_before = font@;
            if tag == 1 {
                match parse_info_block(payload.as_slice()) {
                    Ok(i) => {
                        font.info = Some(i);
                    },
                    Err(e) => {
                        return Err(e);
                    },
                }
            } else if tag == 2 {
                match parse_common_block(payload.as_slice()) {
                    Ok(c) => {
                        font.common = Some(c);
                    },
                    Err(e) => {
                        return Err(e);
                    },
                }
            } else if tag == 3 {
                match parse_pages_block(payload.as_slice()) {
                    Ok(p) => {
                        font.pages = p;
                    },
                    Err(e) => {
                        return Err(e);
                    },
                }
            } else if tag == 4 {
                match parse_chars_block(payload.as_slice()) {
                    Ok(m) => {
                        font.chars = m;
                    },
                    Err(e) => {
                        return Err(e);
                    },
                }
            } else if tag == 5 {
                match parse_kerning_block(payload.as_slice()) {
                    Ok(ks) => {
                        font.kernings = ks;
                    },
                    Err(e) => {
                        return Err(e);
                    },
                }
            }
            proof {
                assert(apply_block(tag, payload@, acc_before) == Ok::<FontView, DecodeError>(
                    font@,
                ));
            }
            pos = pos + 5 + size;
        }
        proof {
            assert(data@.skip(pos as int) =~= Seq::<u8>::empty());
        }
        Ok(font)
    }
}

} // verus!
