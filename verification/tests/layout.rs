use sdf_font::font::Atlas;
use sdf_font::font::Font;
use sdf_font::font::FontLayout;
use sdf_font::font::GlyphLayout;
use sdf_font::font::GlyphQuad;
use sdf_font::rectangle::Rectangle;
use sdf_font::scalar::Scalar;
use sdf_font::tables::GlyphTable;
use sdf_font::tables::KerningTable;
use sdf_font::text::BuiltGlyph;
use sdf_font::text::LookupError;

fn s(x: f32) -> Scalar {
    Scalar { bits: x.to_bits() }
}

fn rect(px: f32, py: f32, dx: f32, dy: f32) -> Rectangle {
    Rectangle { position: (s(px), s(py)), dimensions: (s(dx), s(dy)) }
}

fn test_font() -> Font {
    let mut glyphs = GlyphTable::new();
    glyphs.insert(
        'a',
        GlyphLayout {
            advance_x: s(12.1),
            quad: Some(GlyphQuad {
                geometry: rect(0.1, 0.2, 8.1, 8.2),
                texture: rect(0.01, 0.02, 8.01, 8.02),
            }),
        },
    );
    glyphs.insert(
        'b',
        GlyphLayout {
            advance_x: s(12.4),
            quad: Some(GlyphQuad {
                geometry: rect(0.4, 0.3, 8.4, 8.3),
                texture: rect(0.04, 0.03, 8.04, 8.03),
            }),
        },
    );
    glyphs.insert(' ', GlyphLayout { advance_x: s(5.4), quad: None });
    glyphs.insert('\t', GlyphLayout { advance_x: s(7.5), quad: None });
    let mut kerning = KerningTable::new();
    kerning.insert(('a', 'b'), s(3.1));
    Font {
        glyphs,
        kerning,
        layout: FontLayout { advance_y: s(15.0), ascent: s(10.0), descent: s(-10.0) },
        atlas: Atlas { resolution: (0, 0), distance_field: vec![] },
    }
}

fn collect_glyphs(font: &Font, text: &str) -> Vec<BuiltGlyph> {
    let mut engine = font.layout_glyphs(text.chars().collect());
    let mut out = vec![];
    while let Some(item) = engine.next() {
        out.push(item.unwrap());
    }
    out
}

#[test]
pub fn construct_text() {
    let font = test_font();

    for x in collect_glyphs(&font, "aab") {
        println!("built glyph {}", x.character);
    }

    let layout: Vec<BuiltGlyph> = collect_glyphs(&font, "aab a");

    assert_eq!(layout.len(), 4);

    assert_eq!(layout[0].character, 'a');
    assert_eq!(layout[1].character, 'a');
    assert_eq!(layout[2].character, 'b');
    assert_eq!(layout[3].character, 'a');

    assert_eq!(layout[0].index_in_line, 0);
    assert_eq!(layout[1].index_in_line, 1);
    assert_eq!(layout[2].index_in_line, 2);
    assert_eq!(layout[3].index_in_line, 4);

    assert_eq!(layout[0].quad.geometry.position, (s(0.1), s(0.2)));
    assert_eq!(layout[1].quad.geometry.position, (s(0.1 + 12.1), s(0.2)));
    assert_eq!(layout[2].quad.geometry.position, (s(0.4 + 2.0 * 12.1 + 3.1), s(0.3)));
}

#[test]
fn caret_advancement() {
    let font = test_font();
    let layout = collect_glyphs(&font, "aab");
    assert_eq!(layout.len(), 3);
    assert_eq!(layout[0].quad.geometry.position, (s(0.1), s(0.2)));
    assert_eq!(layout[1].quad.geometry.position, (s(0.1 + 12.1), s(0.2)));
    assert_eq!(layout[2].quad.geometry.position, (s(0.4 + 2.0 * 12.1 + 3.1), s(0.3)));
    assert_eq!(layout[0].index_in_line, 0);
    assert_eq!(layout[1].index_in_line, 1);
    assert_eq!(layout[2].index_in_line, 2);
    assert_eq!(layout[2].quad.texture, rect(0.04, 0.03, 8.04, 8.03));
}

#[test]
fn line_break_resets_x_not_kerning_memory() {
    let font = test_font();
    let layout = collect_glyphs(&font, "a\na");
    assert_eq!(layout.len(), 2);
    assert_eq!(layout[0].index_in_line, 0);
    assert_eq!(layout[1].index_in_line, 0);
    assert_eq!(layout[0].line, 0);
    assert_eq!(layout[1].line, 1);
    assert_eq!(layout[0].quad.geometry.position, (s(0.1), s(0.2)));
    assert_eq!(layout[1].quad.geometry.position, (s(0.1), s(0.2 + 15.0)));
}

#[test]
fn invisible_glyph_advances_caret_and_index() {
    let font = test_font();
    let layout = collect_glyphs(&font, "a a");
    assert_eq!(layout.len(), 2);
    assert_eq!(layout[0].index_in_line, 0);
    assert_eq!(layout[1].index_in_line, 2);
    assert_eq!(layout[1].line, 0);
    assert_eq!(layout[1].quad.geometry.position, (s(0.1 + (12.1 + 5.4)), s(0.2)));
}

#[test]
fn missing_glyph_is_reported() {
    let font = test_font();
    let mut engine = font.layout_glyphs("axb".chars().collect());
    let first = engine.next().unwrap().unwrap();
    assert_eq!(first.character, 'a');
    let second = engine.next().unwrap();
    assert_eq!(second, Err(LookupError { character: 'x' }));
    let third = engine.next().unwrap().unwrap();
    assert_eq!(third.character, 'b');
    assert!(engine.next().is_none());
}

#[test]
fn tab_is_looked_up_like_a_displayable_character() {
    let font = test_font();
    let layout = collect_glyphs(&font, "a\tb");
    assert_eq!(layout.len(), 2);
    assert_eq!(layout[0].character, 'a');
    assert_eq!(layout[1].character, 'b');
    assert_eq!(layout[0].index_in_line, 0);
    assert_eq!(layout[1].index_in_line, 2);
    assert_eq!(layout[1].quad.geometry.position, (s(0.4 + (12.1 + 7.5)), s(0.3)));
}

#[test]
fn tab_missing_from_table_is_reported() {
    let mut glyphs = GlyphTable::new();
    glyphs.insert('a', GlyphLayout { advance_x: s(12.1), quad: None });
    let font = Font {
        glyphs,
        kerning: KerningTable::new(),
        layout: FontLayout { advance_y: s(15.0), ascent: s(10.0), descent: s(-10.0) },
        atlas: Atlas { resolution: (0, 0), distance_field: vec![] },
    };
    let mut engine = font.layout_glyphs("a\ta".chars().collect());
    let first = engine.next().unwrap();
    assert_eq!(first, Err(LookupError { character: '\t' }));
}

#[test]
fn control_characters_are_skipped() {
    let font = test_font();
    let layout = collect_glyphs(&font, "a\u{7}b");
    assert_eq!(layout.len(), 2);
    assert_eq!(layout[0].character, 'a');
    assert_eq!(layout[1].character, 'b');
    assert_eq!(layout[1].index_in_line, 1);
}
