use sdf_font::codec::DecodeError;
use sdf_font::compress::DecompressError;
use sdf_font::compress::compress;
use sdf_font::font::Atlas;
use sdf_font::font::Error;
use sdf_font::font::Font;
use sdf_font::font::FontLayout;
use sdf_font::font::GlyphLayout;
use sdf_font::font::GlyphQuad;
use sdf_font::font::SerializedFont;
use sdf_font::rectangle::Rectangle;
use sdf_font::scalar::Scalar;
use sdf_font::tables::GlyphTable;
use sdf_font::tables::KerningTable;

fn s(x: f32) -> Scalar {
    Scalar { bits: x.to_bits() }
}

fn rect(px: f32, py: f32, dx: f32, dy: f32) -> Rectangle {
    Rectangle { position: (s(px), s(py)), dimensions: (s(dx), s(dy)) }
}

fn sample_font() -> Font {
    let mut glyphs = GlyphTable::new();
    glyphs.insert(
        'a',
        GlyphLayout {
            advance_x: s(12.1),
            quad: Some(GlyphQuad {
                geometry: rect(0.1, 0.2, 8.1, 8.2),
                texture: rect(0.01, 0.02, 8.01, 8.02),
            }),
        },
    );
    glyphs.insert('\u{1F600}', GlyphLayout { advance_x: s(-3.25), quad: None });
    glyphs.insert(' ', GlyphLayout { advance_x: s(5.4), quad: None });
    let mut kerning = KerningTable::new();
    kerning.insert(('a', 'b'), s(3.1));
    kerning.insert(('b', 'a'), s(-0.5));
    Font {
        glyphs,
        kerning,
        layout: FontLayout { advance_y: s(15.0), ascent: s(10.0), descent: s(-10.0) },
        atlas: Atlas { resolution: (3, 2), distance_field: vec![0, 255, 7, 8, 9, 10] },
    }
}

fn assert_same_font(a: Font, b: Font) {
    let a = a.serialized();
    let b = b.serialized();
    let mut ag = a.glyphs;
    let mut bg = b.glyphs;
    ag.sort_by_key(|p| p.0);
    bg.sort_by_key(|p| p.0);
    assert_eq!(ag, bg);
    let mut ak = a.kerning;
    let mut bk = b.kerning;
    ak.sort_by_key(|p| p.0);
    bk.sort_by_key(|p| p.0);
    assert_eq!(ak, bk);
    assert_eq!(a.layout, b.layout);
    assert_eq!(a.atlas, b.atlas);
}

#[test]
fn font_round_trip() {
    let bytes = sample_font().write();
    let back = Font::read(&bytes).unwrap();
    assert_same_font(sample_font(), back);
}

#[test]
fn empty_font_round_trip() {
    let empty = Font {
        glyphs: GlyphTable::new(),
        kerning: KerningTable::new(),
        layout: FontLayout { advance_y: s(0.0), ascent: s(0.0), descent: s(0.0) },
        atlas: Atlas { resolution: (0, 0), distance_field: vec![] },
    };
    let bytes = empty.write();
    let back = Font::read(&bytes).unwrap();
    let serialized = back.serialized();
    assert_eq!(serialized.glyphs.len(), 0);
    assert_eq!(serialized.kerning.len(), 0);
    assert_eq!(serialized.atlas.resolution, (0, 0));
    assert_eq!(serialized.atlas.distance_field.len(), 0);
}

#[test]
fn uncompressed_round_trip_is_exact() {
    let serialized = sample_font().serialized();
    let bytes = serialized.write_uncompressed();
    let back = SerializedFont::read_uncompressed(&bytes).unwrap();
    assert_eq!(back, serialized);
}

#[test]
fn duplicate_keys_rebuild_last_write_wins() {
    let serialized = SerializedFont {
        glyphs: vec![
            ('a', GlyphLayout { advance_x: s(1.0), quad: None }),
            ('a', GlyphLayout { advance_x: s(2.0), quad: None }),
        ],
        kerning: vec![],
        layout: FontLayout { advance_y: s(0.0), ascent: s(0.0), descent: s(0.0) },
        atlas: Atlas { resolution: (0, 0), distance_field: vec![] },
    };
    let font = Font::deserialized(serialized);
    let rebuilt = font.serialized();
    assert_eq!(rebuilt.glyphs, vec![('a', GlyphLayout { advance_x: s(2.0), quad: None })]);
}

#[test]
fn truncated_stream_is_a_decompress_error() {
    // the token byte promises one literal byte that never comes
    match Font::read(&[0x10]) {
        Err(Error::Decompress(DecompressError::UnexpectedEnd)) => {},
        other => panic!("unexpected result: {:?}", other.is_ok()),
    }
}

#[test]
fn empty_stream_is_a_decode_error() {
    // an empty stream decompresses to no bytes at all, which encode no font
    match Font::read(&[]) {
        Err(Error::Decode(DecodeError::UnexpectedEnd)) => {},
        other => panic!("unexpected result: {:?}", other.is_ok()),
    }
}

#[test]
fn compressed_garbage_is_a_decode_error() {
    let bytes = compress(&[1, 2, 3]);
    match Font::read(&bytes) {
        Err(Error::Decode(DecodeError::UnexpectedEnd)) => {},
        other => panic!("unexpected result: {:?}", other.is_ok()),
    }
}

#[test]
fn trailing_bytes_are_rejected() {
    let mut bytes = sample_font().serialized().write_uncompressed();
    bytes.push(0);
    assert_eq!(SerializedFont::read_uncompressed(&bytes), Err(DecodeError::TrailingBytes));
}

#[test]
fn bad_discriminant_is_rejected() {
    let mut bytes = vec![];
    bytes.extend_from_slice(&1u64.to_le_bytes());
    bytes.extend_from_slice(&('a' as u32).to_le_bytes());
    bytes.push(7);
    assert_eq!(SerializedFont::read_uncompressed(&bytes), Err(DecodeError::BadDiscriminant));
}

#[test]
fn surrogate_code_point_is_rejected() {
    let mut bytes = vec![];
    bytes.extend_from_slice(&1u64.to_le_bytes());
    bytes.extend_from_slice(&0xD800u32.to_le_bytes());
    assert_eq!(SerializedFont::read_uncompressed(&bytes), Err(DecodeError::BadCharacter));
}

#[test]
fn hand_built_encoding_decodes() {
    // one glyph 'c' with no quad and advance 2.5; no kerning;
    // metrics 1.0 / 0.5 / -0.5; a 2-by-1 atlas of bytes [3, 4]
    let mut bytes = vec![];
    bytes.extend_from_slice(&1u64.to_le_bytes());
    bytes.extend_from_slice(&('c' as u32).to_le_bytes());
    bytes.push(0);
    bytes.extend_from_slice(&2.5f32.to_bits().to_le_bytes());
    bytes.extend_from_slice(&0u64.to_le_bytes());
    bytes.extend_from_slice(&1.0f32.to_bits().to_le_bytes());
    bytes.extend_from_slice(&0.5f32.to_bits().to_le_bytes());
    bytes.extend_from_slice(&(-0.5f32).to_bits().to_le_bytes());
    bytes.extend_from_slice(&2u64.to_le_bytes());
    bytes.extend_from_slice(&1u64.to_le_bytes());
    bytes.extend_from_slice(&2u64.to_le_bytes());
    bytes.extend_from_slice(&[3, 4]);
    let decoded = SerializedFont::read_uncompressed(&bytes).unwrap();
    assert_eq!(decoded.glyphs, vec![('c', GlyphLayout { advance_x: s(2.5), quad: None })]);
    assert_eq!(decoded.kerning.len(), 0);
    assert_eq!(
        decoded.layout,
        FontLayout { advance_y: s(1.0), ascent: s(0.5), descent: s(-0.5) },
    );
    assert_eq!(decoded.atlas.resolution, (2, 1));
    assert_eq!(decoded.atlas.distance_field, vec![3, 4]);
    let reencoded = decoded.write_uncompressed();
    assert_eq!(reencoded, bytes);
}
