use bmf_parser::BMFont;
use bmf_parser::DecodeError;

fn le32(n: u32) -> [u8; 4] {
    [n as u8, (n >> 8) as u8, (n >> 16) as u8, (n >> 24) as u8]
}

fn block(tag: u8, payload: &[u8]) -> Vec<u8> {
    let mut out = vec![tag];
    out.extend_from_slice(&le32(payload.len() as u32));
    out.extend_from_slice(payload);
    out
}

fn buffer(blocks: &[Vec<u8>]) -> Vec<u8> {
    let mut out = vec![66u8, 77, 70, 3];
    for b in blocks {
        out.extend_from_slice(b);
    }
    out
}

fn glyph_record(
    id: u32,
    x: u16,
    y: u16,
    width: u16,
    height: u16,
    x_offset: i16,
    y_offset: i16,
    x_advance: i16,
    page: u8,
    chnl: u8,
) -> Vec<u8> {
    let mut out = Vec::new();
    out.extend_from_slice(&le32(id));
    for v in [x, y, width, height] {
        out.extend_from_slice(&[v as u8, (v >> 8) as u8]);
    }
    for v in [x_offset, y_offset, x_advance] {
        out.extend_from_slice(&[v as u8, ((v as u16) >> 8) as u8]);
    }
    out.push(page);
    out.push(chnl);
    out
}

fn kerning_record(first: u32, second: u32, amount: i16) -> Vec<u8> {
    let mut out = Vec::new();
    out.extend_from_slice(&le32(first));
    out.extend_from_slice(&le32(second));
    out.extend_from_slice(&[amount as u8, ((amount as u16) >> 8) as u8]);
    out
}

fn info_payload(
    font_size: i16,
    bit_field: u8,
    char_set: u8,
    stretch_h: u16,
    aa: u8,
    padding: [u8; 4],
    spacing: [u8; 2],
    outline: u8,
    name_bytes: &[u8],
) -> Vec<u8> {
    let mut out = Vec::new();
    out.extend_from_slice(&[font_size as u8, ((font_size as u16) >> 8) as u8]);
    out.push(bit_field);
    out.push(char_set);
    out.extend_from_slice(&[stretch_h as u8, (stretch_h >> 8) as u8]);
    out.push(aa);
    out.extend_from_slice(&padding);
    out.extend_from_slice(&spacing);
    out.push(outline);
    out.extend_from_slice(name_bytes);
    out
}

#[test]
fn header_only_yields_empty_font() {
    let font = BMFont::from_octets(&[66, 77, 70, 3]).unwrap();
    assert!(font.info.is_none());
    assert!(font.common.is_none());
    assert!(font.pages.is_empty());
    assert!(font.chars.is_empty());
    assert!(font.kernings.is_empty());
}

#[test]
fn invalid_header_rejected() {
    assert_eq!(
        BMFont::from_octets(&[88, 77, 70, 3]).unwrap_err(),
        DecodeError::InvalidHeader
    );
    assert_eq!(
        BMFont::from_octets(&[66, 77, 70, 4]).unwrap_err(),
        DecodeError::InvalidHeader
    );
    assert_eq!(
        BMFont::from_octets(&[]).unwrap_err(),
        DecodeError::InvalidHeader
    );
    // bad magic wins over whatever follows
    let mut data = vec![66u8, 77, 71, 3];
    data.extend_from_slice(&block(2, &[0u8; 15]));
    assert_eq!(
        BMFont::from_octets(&data).unwrap_err(),
        DecodeError::InvalidHeader
    );
}

#[test]
fn chars_block_misaligned() {
    let data = buffer(&[block(4, &[0u8; 30])]);
    assert_eq!(
        BMFont::from_octets(&data).unwrap_err(),
        DecodeError::TruncatedBlock
    );
}

#[test]
fn second_chars_block_replaces_first() {
    let a = glyph_record(1, 5, 6, 7, 8, 0, 0, 9, 0, 0);
    let b = glyph_record(2, 1, 2, 3, 4, 0, 0, 5, 0, 0);
    let data = buffer(&[block(4, &a), block(4, &b)]);
    let font = BMFont::from_octets(&data).unwrap();
    assert_eq!(font.chars.len(), 1);
    assert!(!font.chars.contains_key(&1));
    let g = &font.chars[&2];
    assert_eq!((g.x, g.y, g.width, g.height, g.x_advance), (1, 2, 3, 4, 5));
}

#[test]
fn glyph_record_round_trip() {
    let rec = glyph_record(65, 0, 0, 10, 12, 0, 0, 11, 0, 15);
    assert_eq!(rec.len(), 20);
    let data = buffer(&[block(4, &rec)]);
    let font = BMFont::from_octets(&data).unwrap();
    let g = &font.chars[&65];
    assert_eq!(g.id, 65);
    assert_eq!(g.x, 0);
    assert_eq!(g.y, 0);
    assert_eq!(g.width, 10);
    assert_eq!(g.height, 12);
    assert_eq!(g.x_offset, 0);
    assert_eq!(g.y_offset, 0);
    assert_eq!(g.x_advance, 11);
    assert_eq!(g.page, 0);
    assert_eq!(g.chnl, 15);
}

#[test]
fn glyph_record_extreme_values() {
    let rec = glyph_record(0x01020304, 0xFFFF, 0, 65535, 1, -1, -32768, 32767, 7, 255);
    let data = buffer(&[block(4, &rec)]);
    let font = BMFont::from_octets(&data).unwrap();
    let g = &font.chars[&0x01020304];
    assert_eq!(g.x, 0xFFFF);
    assert_eq!(g.x_offset, -1);
    assert_eq!(g.y_offset, -32768);
    assert_eq!(g.x_advance, 32767);
    assert_eq!(g.page, 7);
    assert_eq!(g.chnl, 255);
}

#[test]
fn chars_duplicate_id_last_wins() {
    let mut payload = glyph_record(65, 1, 1, 1, 1, 0, 0, 1, 0, 0);
    payload.extend_from_slice(&glyph_record(65, 9, 9, 9, 9, 0, 0, 9, 0, 0));
    let data = buffer(&[block(4, &payload)]);
    let font = BMFont::from_octets(&data).unwrap();
    assert_eq!(font.chars.len(), 1);
    assert_eq!(font.chars[&65].x, 9);
}

#[test]
fn realistic_font_asset() {
    let info = info_payload(-32, 0b1000_0000, 0, 100, 1, [1, 1, 1, 1], [2, 2], 0, b"verdana\0");
    let common = [
        80, 0, // line height
        60, 0, // base
        0, 1, // scale_w = 256
        0, 1, // scale_h = 256
        2, 0, // pages
        0,  // bit field
        1, 0, 0, 0, // channels
    ];
    let pages = b"font_0.png\0font_1.png\0";
    let mut chars = glyph_record(65, 0, 0, 10, 12, 0, 1, 11, 0, 15);
    chars.extend_from_slice(&glyph_record(66, 10, 0, 9, 12, 0, 1, 10, 1, 15));
    let kernings = kerning_record(65, 66, -2);
    let data = buffer(&[
        block(1, &info),
        block(2, &common),
        block(3, pages),
        block(4, &chars),
        block(5, &kernings),
    ]);
    let font = BMFont::from_octets(&data).unwrap();

    let info = font.info.as_ref().unwrap();
    assert_eq!(info.font_size, -32);
    assert_eq!(info.font_name, "verdana");

    let common = font.common.as_ref().unwrap();
    assert_eq!(common.line_height, 80);
    assert_eq!(common.scale_w, 256);
    assert_eq!(font.pages, vec!["font_0.png", "font_1.png"]);
    assert_eq!(font.pages.len(), common.pages as usize);
    for g in font.chars.values() {
        assert!((g.page as usize) < font.pages.len());
    }
    assert_eq!(font.kernings.len(), 1);
    assert_eq!(font.kernings[0].amount, -2);
}

#[test]
fn unknown_tag_skipped() {
    let payload = [0xDEu8, 0xAD, 0xBE, 0xEF, 0x00, 0x42];
    let common = [10u8, 0, 8, 0, 64, 0, 64, 0, 1, 0, 0, 0, 0, 0, 0];
    let data = buffer(&[block(200, &payload), block(2, &common)]);
    let font = BMFont::from_octets(&data).unwrap();
    let c = font.common.unwrap();
    assert_eq!(c.line_height, 10);
    assert_eq!(c.base, 8);
    assert!(font.info.is_none());
    assert!(font.chars.is_empty());
}

#[test]
fn info_block_decoded() {
    let payload = info_payload(24, 0x40, 2, 150, 3, [4, 3, 2, 1], [9, 8], 1, b"Arial\0\0");
    let data = buffer(&[block(1, &payload)]);
    let font = BMFont::from_octets(&data).unwrap();
    let info = font.info.unwrap();
    assert_eq!(info.font_size, 24);
    assert_eq!(info.bit_field, 0x40);
    assert_eq!(info.char_set, 2);
    assert_eq!(info.stretch_h, 150);
    assert_eq!(info.aa, 3);
    assert_eq!(info.padding, [4, 3, 2, 1]);
    assert_eq!(info.spacing, [9, 8]);
    assert_eq!(info.outline, 1);
    assert_eq!(info.font_name, "Arial");
}

#[test]
fn info_name_non_ascii() {
    // "héllo" in UTF-8: the é takes two bytes
    let payload = info_payload(10, 0, 0, 100, 1, [0; 4], [0; 2], 0, "h\u{e9}llo".as_bytes());
    let data = buffer(&[block(1, &payload)]);
    let font = BMFont::from_octets(&data).unwrap();
    let name = font.info.unwrap().font_name;
    assert_eq!(name, "héllo");
    assert_eq!(name.chars().count(), 5);
}

#[test]
fn info_name_invalid_utf8() {
    let payload = info_payload(10, 0, 0, 100, 1, [0; 4], [0; 2], 0, &[0xFF, 0xFE]);
    let data = buffer(&[block(1, &payload)]);
    assert_eq!(
        BMFont::from_octets(&data).unwrap_err(),
        DecodeError::InvalidEncoding
    );
}

#[test]
fn info_block_too_short() {
    let data = buffer(&[block(1, &[0u8; 13])]);
    assert_eq!(
        BMFont::from_octets(&data).unwrap_err(),
        DecodeError::TruncatedBlock
    );
}

#[test]
fn later_info_block_wins() {
    let first = info_payload(10, 0, 0, 100, 1, [0; 4], [0; 2], 0, b"first\0");
    let second = info_payload(12, 0, 0, 100, 1, [0; 4], [0; 2], 0, b"second\0");
    let data = buffer(&[block(1, &first), block(1, &second)]);
    let font = BMFont::from_octets(&data).unwrap();
    let info = font.info.unwrap();
    assert_eq!(info.font_size, 12);
    assert_eq!(info.font_name, "second");
}

#[test]
fn common_block_decoded() {
    let payload = [2u8, 1, 4, 3, 6, 5, 8, 7, 10, 9, 11, 12, 13, 14, 15];
    let data = buffer(&[block(2, &payload)]);
    let font = BMFont::from_octets(&data).unwrap();
    let c = font.common.unwrap();
    assert_eq!(c.line_height, 258); // 2 + 1 * 256
    assert_eq!(c.base, 772);
    assert_eq!(c.scale_w, 1286);
    assert_eq!(c.scale_h, 1800);
    assert_eq!(c.pages, 2314);
    assert_eq!(c.bit_field, 11);
    assert_eq!(c.alpha_chnl, 12);
    assert_eq!(c.red_chnl, 13);
    assert_eq!(c.green_chnl, 14);
    assert_eq!(c.blue_chnl, 15);
}

#[test]
fn common_block_too_short() {
    let data = buffer(&[block(2, &[0u8; 14])]);
    assert_eq!(
        BMFont::from_octets(&data).unwrap_err(),
        DecodeError::TruncatedBlock
    );
}

#[test]
fn pages_empty_block_yields_empty_list() {
    let data = buffer(&[block(3, &[])]);
    let font = BMFont::from_octets(&data).unwrap();
    assert!(font.pages.is_empty());
}

#[test]
fn page_without_terminator_still_counts() {
    let data = buffer(&[block(3, b"first.png\0last.png")]);
    let font = BMFont::from_octets(&data).unwrap();
    assert_eq!(font.pages, vec!["first.png", "last.png"]);
}

#[test]
fn pages_invalid_utf8() {
    let data = buffer(&[block(3, &[0x80, 0x80, 0x00])]);
    assert_eq!(
        BMFont::from_octets(&data).unwrap_err(),
        DecodeError::InvalidEncoding
    );
}

#[test]
fn kerning_block_decoded() {
    let mut payload = kerning_record(65, 86, -3);
    payload.extend_from_slice(&kerning_record(86, 65, 2));
    payload.extend_from_slice(&kerning_record(65, 86, -3)); // duplicate kept
    let data = buffer(&[block(5, &payload)]);
    let font = BMFont::from_octets(&data).unwrap();
    assert_eq!(font.kernings.len(), 3);
    assert_eq!(font.kernings[0].first, 65);
    assert_eq!(font.kernings[0].second, 86);
    assert_eq!(font.kernings[0].amount, -3);
    assert_eq!(font.kernings[1].amount, 2);
    assert_eq!(font.kernings[2].amount, -3);
}

#[test]
fn kerning_block_misaligned() {
    let data = buffer(&[block(5, &[0u8; 15])]);
    assert_eq!(
        BMFont::from_octets(&data).unwrap_err(),
        DecodeError::TruncatedBlock
    );
}

#[test]
fn tag_without_length_field() {
    let data = vec![66u8, 77, 70, 3, 4];
    assert_eq!(
        BMFont::from_octets(&data).unwrap_err(),
        DecodeError::TruncatedBlock
    );
    let data = vec![66u8, 77, 70, 3, 4, 20, 0];
    assert_eq!(
        BMFont::from_octets(&data).unwrap_err(),
        DecodeError::TruncatedBlock
    );
}

#[test]
fn declared_length_exceeds_buffer() {
    let mut data = vec![66u8, 77, 70, 3];
    data.extend_from_slice(&[2, 10, 0, 0, 0]); // common block claiming 10 bytes
    data.extend_from_slice(&[1, 2, 3]); // only 3 present
    assert_eq!(
        BMFont::from_octets(&data).unwrap_err(),
        DecodeError::TruncatedBlock
    );
}

#[test]
fn failure_is_terminal() {
    // a bad block followed by a good one still fails with the first error
    let good = glyph_record(65, 0, 0, 1, 1, 0, 0, 1, 0, 0);
    let data = buffer(&[block(4, &[0u8; 5]), block(4, &good)]);
    assert_eq!(
        BMFont::from_octets(&data).unwrap_err(),
        DecodeError::TruncatedBlock
    );
}
