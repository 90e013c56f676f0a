//! The decoded font structure and its mathematical view.

use std::collections::HashMap;
use vstd::prelude::*;

verus! {

/// Why a decode attempt failed. Every failure is terminal: the caller gets
/// either a fully populated [`BMFont`] or the first error encountered.
#[derive(Clone, Copy, Debug, PartialEq, Eq, Structural)]
pub enum DecodeError {
    /// The first four bytes are not the magic signature `B`, `M`, `F`, 3.
    InvalidHeader,
    /// A declared block length exceeds the remaining buffer, or a fixed or
    /// record-sized read runs past the end of a block.
    TruncatedBlock,
    /// Bytes that should be UTF-8 text (a font name or a page name) are not.
    InvalidEncoding,
}

/// The `info` block: how the font was generated.
#[derive(Debug)]
pub struct InfoBlock {
    pub font_size: i16,
    pub bit_field: u8,
    pub char_set: u8,
    pub stretch_h: u16,
    pub aa: u8,
    pub padding: [u8; 4],
    pub spacing: [u8; 2],
    pub outline: u8,
    pub font_name: String,
}

/// The `common` block: values that hold for the whole font.
#[derive(Clone, Copy, Debug, PartialEq, Eq, Structural)]
pub struct CommonBlock {
    pub line_height: u16,
    pub base: u16,
    pub scale_w: u16,
    pub scale_h: u16,
    pub pages: u16,
    pub bit_field: u8,
    pub alpha_chnl: u8,
    pub red_chnl: u8,
    pub green_chnl: u8,
    pub blue_chnl: u8,
}

/// One glyph record: atlas location and rendering metrics for a codepoint.
#[derive(Clone, Copy, Debug, PartialEq, Eq, Structural)]
pub struct Char {
    pub id: u32,
    pub x: u16,
    pub y: u16,
    pub width: u16,
    pub height: u16,
    pub x_offset: i16,
    pub y_offset: i16,
    pub x_advance: i16,
    pub page: u8,
    pub chnl: u8,
}

/// One kerning record: an advance adjustment for an ordered codepoint pair.
#[derive(Clone, Copy, Debug, PartialEq, Eq, Structural)]
pub struct KerningPair {
    pub first: u32,
    pub second: u32,
    pub amount: i16,
}

/// The fully decoded font descriptor.
#[derive(Debug)]
pub struct BMFont {
    pub info: Option<InfoBlock>,
    pub common: Option<CommonBlock>,
    pub pages: Vec<String>,
    pub chars: HashMap<u32, Char>,
    pub kernings: Vec<KerningPair>,
}

/// Mathematical value of an [`InfoBlock`]: the same fields, with the
/// variable-length pieces as sequences.
#[verifier::ext_equal]
pub ghost struct InfoView {
    pub font_size: i16,
    pub bit_field: u8,
    pub char_set: u8,
    pub stretch_h: u16,
    pub aa: u8,
    pub padding: Seq<u8>,
    pub spacing: Seq<u8>,
    pub outline: u8,
    pub font_name: Seq<char>,
}

impl View for InfoBlock {
    type V = InfoView;

    open spec fn view(&self) -> InfoView {
        InfoView {
            font_size: self.font_size,
            bit_field: self.bit_field,
            char_set: self.char_set,
            stretch_h: self.stretch_h,
            aa: self.aa,
            padding: self.padding@,
            spacing: self.spacing@,
            outline: self.outline,
            font_name: self.font_name@,
        }
    }
}

/// Mathematical value of a [`BMFont`]: page names as character sequences,
/// glyphs as a map keyed by codepoint, kernings in file order.
#[verifier::ext_equal]
pub ghost struct FontView {
    pub info: Option<InfoView>,
    pub common: Option<CommonBlock>,
    pub pages: Seq<Seq<char>>,
    pub chars: Map<u32, Char>,
    pub kernings: Seq<KerningPair>,
}

impl View for BMFont {
    type V = FontView;

    open spec fn view(&self) -> FontView {
        FontView {
            info: match self.info {
                Some(i) => Some(i@),
                None => None,
            },
            common: self.common,
            pages: self.pages@.map_values(|s: String| s@),
            chars: self.chars@,
            kernings: self.kernings@,
        }
    }
}

/// The descriptor a decode starts from: nothing seen yet.
pub open spec fn empty_font() -> FontView {
    FontView {
        info: None,
        common: None,
        pages: Seq::empty(),
        chars: Map::empty(),
        kernings: Seq::empty(),
    }
}

} // verus!
