//! Decoder for the binary BMFont bitmap-font description format.
//!
//! A font file is a 4-byte magic header followed by tagged, length-prefixed
//! blocks. Decoding turns such a byte buffer into a [`BMFont`] structure
//! holding glyph metrics, kerning data and texture-page names.

pub mod blocks;
pub mod bytes;
pub mod decode;
pub mod font;
pub mod laws;
pub mod text;

pub use font::BMFont;
pub use font::Char;
pub use font::CommonBlock;
pub use font::DecodeError;
pub use font::InfoBlock;
pub use font::KerningPair;
