//! The structural binary encoding of a font.
//!
//! The layout is fixed: all multi-byte integers are little-endian; a
//! character is its code point as four bytes; a scalar is its bit pattern
//! as four bytes; an optional quad is a one-byte discriminant (0 absent,
//! 1 present) followed by the quad when present; every list is an eight-byte
//! length followed by its elements in order. A font is, in field order:
//! the glyph list, the kerning list, the font-wide metrics, and the atlas
//! (two eight-byte resolution values, then the length-prefixed bitmap).
//!
//! Decoding is the exact inverse and must consume the whole input; the
//! specification functions `dec_*` say precisely which byte strings decode
//! and to what, and [`lemma_font_roundtrip`] proves that every encoded font
//! decodes back to itself.

use vstd::prelude::*;
use vstd::utf8::is_scalar;
use vstd::slice::slice_subrange;
use vstd::slice::slice_to_vec;
use crate::scalar::Scalar;
use crate::rectangle::Rectangle;
use crate::font::GlyphQuad;
use crate::font::GlyphLayout;
use crate::font::FontLayout;
use crate::font::Atlas;
use crate::font::AtlasView;
use crate::font::SerializedFont;
use crate::font::SerializedFontView;

verus! {

/// Why a byte string failed to decode.
#[derive(Clone, Copy, PartialEq, Eq, Debug)]
pub enum DecodeError {
    /// The input ended before the structure was complete.
    UnexpectedEnd,
    /// A one-byte discriminant held a value other than 0 or 1.
    BadDiscriminant,
    /// A four-byte value was not a Unicode scalar value.
    BadCharacter,
    /// A decoded size does not fit this machine's address space.
    Oversize,
    /// Bytes remained after the structure was complete.
    TrailingBytes,
}

// ---------------------------------------------------------------- integers

/// The four little-endian bytes of `x`.
pub open spec fn enc_u32(x: u32) -> Seq<u8> {
    seq![
        (x & 0xff) as u8,
        ((x >> 8) & 0xff) as u8,
        ((x >> 16) & 0xff) as u8,
        ((x >> 24) & 0xff) as u8,
    ]
}

/// The value whose little-endian bytes are `b0 .. b3`.
pub open spec fn u32_from_bytes(b0: u8, b1: u8, b2: u8, b3: u8) -> u32 {
    (b0 as u32) | ((b1 as u32) << 8) | ((b2 as u32) << 16) | ((b3 as u32) << 24)
}

pub open spec fn dec_u32(b: Seq<u8>) -> Option<(u32, Seq<u8>)> {
    if b.len() >= 4 {
        Some((u32_from_bytes(b[0], b[1], b[2], b[3]), b.skip(4)))
    } else {
        None
    }
}

/// The eight little-endian bytes of `x`.
pub open spec fn enc_u64(x: u64) -> Seq<u8> {
    seq![
        (x & 0xff) as u8,
        ((x >> 8) & 0xff) as u8,
        ((x >> 16) & 0xff) as u8,
        ((x >> 24) & 0xff) as u8,
        ((x >> 32) & 0xff) as u8,
        ((x >> 40) & 0xff) as u8,
        ((x >> 48) & 0xff) as u8,
        ((x >> 56) & 0xff) as u8,
    ]
}

/// The value whose little-endian bytes are `b0 .. b7`.
pub open spec fn u64_from_bytes(
    b0: u8,
    b1: u8,
    b2: u8,
    b3: u8,
    b4: u8,
    b5: u8,
    b6: u8,
    b7: u8,
) -> u64 {
    (b0 as u64) | ((b1 as u64) << 8) | ((b2 as u64) << 16) | ((b3 as u64) << 24) | ((b4
        as u64) << 32) | ((b5 as u64) << 40) | ((b6 as u64) << 48) | ((b7 as u64) << 56)
}

pub open spec fn dec_u64(b: Seq<u8>) -> Option<(u64, Seq<u8>)> {
    if b.len() >= 8 {
        Some((u64_from_bytes(b[0], b[1], b[2], b[3], b[4], b[5], b[6], b[7]), b.skip(8)))
    } else {
        None
    }
}

proof fn lemma_dec_u32(x: u32, rest: Seq<u8>)
    ensures
        dec_u32(enc_u32(x) + rest) == Some((x, rest)),
{
    let b = enc_u32(x) + rest;
    assert(b.len() >= 4);
    assert(b[0] == (x & 0xff) as u8);
    assert(b[1] == ((x >> 8) & 0xff) as u8);
    assert(b[2] == ((x >> 16) & 0xff) as u8);
    assert(b[3] == ((x >> 24) & 0xff) as u8);
    assert(((x & 0xff) as u8 as u32) | ((((x >> 8) & 0xff) as u8 as u32) << 8) | ((((x >> 16)
        & 0xff) as u8 as u32) << 16) | ((((x >> 24) & 0xff) as u8 as u32) << 24) == x)
        by (bit_vector);
    assert(b.skip(4) =~= rest);
}

proof fn lemma_dec_u64(x: u64, rest: Seq<u8>)
    ensures
        dec_u64(enc_u64(x) + rest) == Some((x, rest)),
{
    let b = enc_u64(x) + rest;
    assert(b.len() >= 8);
    assert(b[0] == (x & 0xff) as u8);
    assert(b[1] == ((x >> 8) & 0xff) as u8);
    assert(b[2] == ((x >> 16) & 0xff) as u8);
    assert(b[3] == ((x >> 24) & 0xff) as u8);
    assert(b[4] == ((x >> 32) & 0xff) as u8);
    assert(b[5] == ((x >> 40) & 0xff) as u8);
    assert(b[6] == ((x >> 48) & 0xff) as u8);
    assert(b[7] == ((x >> 56) & 0xff) as u8);
    assert(((x & 0xff) as u8 as u64) | ((((x >> 8) & 0xff) as u8 as u64) << 8) | ((((x >> 16)
        & 0xff) as u8 as u64) << 16) | ((((x >> 24) & 0xff) as u8 as u64) << 24) | ((((x >> 32)
        & 0xff) as u8 as u64) << 32) | ((((x >> 40) & 0xff) as u8 as u64) << 40) | ((((x >> 48)
        & 0xff) as u8 as u64) << 48) | ((((x >> 56) & 0xff) as u8 as u64) << 56) == x)
        by (bit_vector);
    assert(b.skip(8) =~= rest);
}

// ----------------------------------------------------- characters, scalars

/// A character is encoded as its code point.
pub open spec fn enc_char(c: char) -> Seq<u8> {
    enc_u32(c as u32)
}

pub open spec fn dec_char(b: Seq<u8>) -> Option<(char, Seq<u8>)> {
    match dec_u32(b) {
        Some((u, rest)) => if is_scalar(u) {
            Some(((u as char), rest))
        } else {
            None
        },
        None => None,
    }
}

proof fn lemma_dec_char(c: char, rest: Seq<u8>)
    ensures
        dec_char(enc_char(c) + rest) == Some((c, rest)),
{
    lemma_dec_u32(c as u32, rest);
    vstd::utf8::char_is_scalar(c);
    vstd::utf8::char_u32_cast(c, c as u32);
}

/// A scalar is encoded as its bit pattern.
pub open spec fn enc_scalar(s: Scalar) -> Seq<u8> {
    enc_u32(s.bits)
}

pub open spec fn dec_scalar(b: Seq<u8>) -> Option<(Scalar, Seq<u8>)> {
    match dec_u32(b) {
        Some((u, rest)) => Some((Scalar { bits: u }, rest)),
        None => None,
    }
}

proof fn lemma_dec_scalar(s: Scalar, rest: Seq<u8>)
    ensures
        dec_scalar(enc_scalar(s) + rest) == Some((s, rest)),
{
    lemma_dec_u32(s.bits, rest);
}

// -------------------------------------------------------------- rectangles

/// A rectangle is its position pair then its dimensions pair.
pub open spec fn enc_rect(r: Rectangle) -> Seq<u8> {
    enc_scalar(r.position.0) + enc_scalar(r.position.1) + enc_scalar(r.dimensions.0)
        + enc_scalar(r.dimensions.1)
}

pub open spec fn dec_rect(b: Seq<u8>) -> Option<(Rectangle, Seq<u8>)> {
    match dec_scalar(b) {
        Some((px, b1)) => match dec_scalar(b1) {
            Some((py, b2)) => match dec_scalar(b2) {
                Some((dx, b3)) => match dec_scalar(b3) {
                    Some((dy, b4)) => Some(
                        (Rectangle { position: (px, py), dimensions: (dx, dy) }, b4),
                    ),
                    None => None,
                },
                None => None,
            },
            None => None,
        },
        None => None,
    }
}

proof fn lemma_dec_rect(r: Rectangle, rest: Seq<u8>)
    ensures
        dec_rect(enc_rect(r) + rest) == Some((r, rest)),
{
    let e0 = enc_scalar(r.position.0);
    let e1 = enc_scalar(r.position.1);
    let e2 = enc_scalar(r.dimensions.0);
    let e3 = enc_scalar(r.dimensions.1);
    assert(enc_rect(r) + rest =~= e0 + (e1 + (e2 + (e3 + rest))));
    lemma_dec_scalar(r.position.0, e1 + (e2 + (e3 + rest)));
    lemma_dec_scalar(r.position.1, e2 + (e3 + rest));
    lemma_dec_scalar(r.dimensions.0, e3 + rest);
    lemma_dec_scalar(r.dimensions.1, rest);
}

// ------------------------------------------------------------------- quads

/// A quad is its geometry rectangle then its texture rectangle.
pub open spec fn enc_quad(q: GlyphQuad) -> Seq<u8> {
    enc_rect(q.geometry) + enc_rect(q.texture)
}

pub open spec fn dec_quad(b: Seq<u8>) -> Option<(GlyphQuad, Seq<u8>)> {
    match dec_rect(b) {
        Some((geometry, b1)) => match dec_rect(b1) {
            Some((texture, b2)) => Some((GlyphQuad { geometry, texture }, b2)),
            None => None,
        },
        None => None,
    }
}

proof fn lemma_dec_quad(q: GlyphQuad, rest: Seq<u8>)
    ensures
        dec_quad(enc_quad(q) + rest) == Some((q, rest)),
{
    assert(enc_quad(q) + rest =~= enc_rect(q.geometry) + (enc_rect(q.texture) + rest));
    lemma_dec_rect(q.geometry, enc_rect(q.texture) + rest);
    lemma_dec_rect(q.texture, rest);
}

// ----------------------------------------------------------- glyph layouts

/// A glyph layout is a discriminant for the optional quad, the quad when
/// present, then the advance.
pub open spec fn enc_glyph(g: GlyphLayout) -> Seq<u8> {
    (match g.quad {
        Some(q) => seq![1u8] + enc_quad(q),
        None => seq![0u8],
    }) + enc_scalar(g.advance_x)
}

pub open spec fn dec_glyph(b: Seq<u8>) -> Option<(GlyphLayout, Seq<u8>)> {
    if b.len() < 1 {
        None
    } else if b[0] == 0u8 {
        match dec_scalar(b.skip(1)) {
            Some((advance_x, b1)) => Some((GlyphLayout { quad: None, advance_x }, b1)),
            None => None,
        }
    } else if b[0] == 1u8 {
        match dec_quad(b.skip(1)) {
            Some((q, b1)) => match dec_scalar(b1) {
                Some((advance_x, b2)) => Some(
                    (GlyphLayout { quad: Some(q), advance_x }, b2),
                ),
                None => None,
            },
            None => None,
        }
    } else {
        None
    }
}

proof fn lemma_dec_glyph(g: GlyphLayout, rest: Seq<u8>)
    ensures
        dec_glyph(enc_glyph(g) + rest) == Some((g, rest)),
{
    let b = enc_glyph(g) + rest;
    match g.quad {
        Some(q) => {
            assert(b[0] == 1u8);
            assert(b.skip(1) =~= enc_quad(q) + (enc_scalar(g.advance_x) + rest));
            lemma_dec_quad(q, enc_scalar(g.advance_x) + rest);
            lemma_dec_scalar(g.advance_x, rest);
        },
        None => {
            assert(b[0] == 0u8);
            assert(b.skip(1) =~= enc_scalar(g.advance_x) + rest);
            lemma_dec_scalar(g.advance_x, rest);
        },
    }
}

// ------------------------------------------------------------- glyph lists

/// One glyph list entry: the character, then its layout.
pub open spec fn enc_glyph_pair(p: (char, GlyphLayout)) -> Seq<u8> {
    enc_char(p.0) + enc_glyph(p.1)
}

pub open spec fn dec_glyph_pair(b: Seq<u8>) -> Option<((char, GlyphLayout), Seq<u8>)> {
    match dec_char(b) {
        Some((c, b1)) => match dec_glyph(b1) {
            Some((g, b2)) => Some(((c, g), b2)),
            None => None,
        },
        None => None,
    }
}

proof fn lemma_dec_glyph_pair(p: (char, GlyphLayout), rest: Seq<u8>)
    ensures
        dec_glyph_pair(enc_glyph_pair(p) + rest) == Some((p, rest)),
{
    assert(enc_glyph_pair(p) + rest =~= enc_char(p.0) + (enc_glyph(p.1) + rest));
    lemma_dec_char(p.0, enc_glyph(p.1) + rest);
    lemma_dec_glyph(p.1, rest);
}

/// The glyph list entries, in order, without their count.
pub open spec fn enc_glyph_pairs(s: Seq<(char, GlyphLayout)>) -> Seq<u8>
    decreases s.len(),
{
    if s.len() == 0 {
        Seq::<u8>::empty()
    } else {
        enc_glyph_pair(s.first()) + enc_glyph_pairs(s.drop_first())
    }
}

pub open spec fn dec_glyph_pairs(b: Seq<u8>, n: nat) -> Option<
    (Seq<(char, GlyphLayout)>, Seq<u8>),
>
    decreases n,
{
    if n == 0 {
        Some((Seq::<(char, GlyphLayout)>::empty(), b))
    } else {
        match dec_glyph_pair(b) {
            Some((p, rest)) => match dec_glyph_pairs(rest, (n - 1) as nat) {
                Some((s, rest2)) => Some((seq![p] + s, rest2)),
                None => None,
            },
            None => None,
        }
    }
}

proof fn lemma_enc_glyph_pairs_snoc(s: Seq<(char, GlyphLayout)>)
    requires
        s.len() > 0,
    ensures
        enc_glyph_pairs(s) == enc_glyph_pairs(s.drop_last()) + enc_glyph_pair(s.last()),
    decreases s.len(),
{
    if s.len() == 1 {
        assert(s.drop_first() =~= Seq::<(char, GlyphLayout)>::empty());
        assert(s.drop_last() =~= Seq::<(char, GlyphLayout)>::empty());
        assert(s.first() == s.last());
        assert(enc_glyph_pairs(s) =~= enc_glyph_pairs(s.drop_last()) + enc_glyph_pair(s.last()));
    } else {
        lemma_enc_glyph_pairs_snoc(s.drop_first());
        assert(s.drop_first().drop_last() =~= s.drop_last().drop_first());
        assert(s.drop_first().last() == s.last());
        assert(s.drop_last().first() == s.first());
        assert(enc_glyph_pairs(s) =~= enc_glyph_pairs(s.drop_last()) + enc_glyph_pair(s.last()));
    }
}

proof fn lemma_dec_glyph_pairs(s: Seq<(char, GlyphLayout)>, rest: Seq<u8>)
    ensures
        dec_glyph_pairs(enc_glyph_pairs(s) + rest, s.len()) == Some((s, rest)),
    decreases s.len(),
{
    if s.len() == 0 {
        assert(enc_glyph_pairs(s) + rest =~= rest);
    } else {
        assert(enc_glyph_pairs(s) + rest =~= enc_glyph_pair(s.first()) + (enc_glyph_pairs(
            s.drop_first(),
        ) + rest));
        lemma_dec_glyph_pair(s.first(), enc_glyph_pairs(s.drop_first()) + rest);
        lemma_dec_glyph_pairs(s.drop_first(), rest);
        assert(seq![s.first()] + s.drop_first() =~= s);
    }
}

// ----------------------------------------------------------- kerning lists

/// One kerning list entry: the two characters of the pair, then the
/// adjustment.
pub open spec fn enc_kern_pair(p: ((char, char), Scalar)) -> Seq<u8> {
    enc_char(p.0.0) + enc_char(p.0.1) + enc_scalar(p.1)
}

pub open spec fn dec_kern_pair(b: Seq<u8>) -> Option<(((char, char), Scalar), Seq<u8>)> {
    match dec_char(b) {
        Some((c0, b1)) => match dec_char(b1) {
            Some((c1, b2)) => match dec_scalar(b2) {
                Some((adjustment, b3)) => Some((((c0, c1), adjustment), b3)),
                None => None,
            },
            None => None,
        },
        None => None,
    }
}

proof fn lemma_dec_kern_pair(p: ((char, char), Scalar), rest: Seq<u8>)
    ensures
        dec_kern_pair(enc_kern_pair(p) + rest) == Some((p, rest)),
{
    assert(enc_kern_pair(p) + rest =~= enc_char(p.0.0) + (enc_char(p.0.1) + (enc_scalar(p.1)
        + rest)));
    lemma_dec_char(p.0.0, enc_char(p.0.1) + (enc_scalar(p.1) + rest));
    lemma_dec_char(p.0.1, enc_scalar(p.1) + rest);
    lemma_dec_scalar(p.1, rest);
}

/// The kerning list entries, in order, without their count.
pub open spec fn enc_kern_pairs(s: Seq<((char, char), Scalar)>) -> Seq<u8>
    decreases s.len(),
{
    if s.len() == 0 {
        Seq::<u8>::empty()
    } else {
        enc_kern_pair(s.first()) + enc_kern_pairs(s.drop_first())
    }
}

pub open spec fn dec_kern_pairs(b: Seq<u8>, n: nat) -> Option<
    (Seq<((char, char), Scalar)>, Seq<u8>),
>
    decreases n,
{
    if n == 0 {
        Some((Seq::<((char, char), Scalar)>::empty(), b))
    } else {
        match dec_kern_pair(b) {
            Some((p, rest)) => match dec_kern_pairs(rest, (n - 1) as nat) {
                Some((s, rest2)) => Some((seq![p] + s, rest2)),
                None => None,
            },
            None => None,
        }
    }
}

proof fn lemma_enc_kern_pairs_snoc(s: Seq<((char, char), Scalar)>)
    requires
        s.len() > 0,
    ensures
        enc_kern_pairs(s) == enc_kern_pairs(s.drop_last()) + enc_kern_pair(s.last()),
    decreases s.len(),
{
    if s.len() == 1 {
        assert(s.drop_first() =~= Seq::<((char, char), Scalar)>::empty());
        assert(s.drop_last() =~= Seq::<((char, char), Scalar)>::empty());
        assert(s.first() == s.last());
        assert(enc_kern_pairs(s) =~= enc_kern_pairs(s.drop_last()) + enc_kern_pair(s.last()));
    } else {
        lemma_enc_kern_pairs_snoc(s.drop_first());
        assert(s.drop_first().drop_last() =~= s.drop_last().drop_first());
        assert(s.drop_first().last() == s.last());
        assert(s.drop_last().first() == s.first());
        assert(enc_kern_pairs(s) =~= enc_kern_pairs(s.drop_last()) + enc_kern_pair(s.last()));
    }
}

proof fn lemma_dec_kern_pairs(s: Seq<((char, char), Scalar)>, rest: Seq<u8>)
    ensures
        dec_kern_pairs(enc_kern_pairs(s) + rest, s.len()) == Some((s, rest)),
    decreases s.len(),
{
    if s.len() == 0 {
        assert(enc_kern_pairs(s) + rest =~= rest);
    } else {
        assert(enc_kern_pairs(s) + rest =~= enc_kern_pair(s.first()) + (enc_kern_pairs(
            s.drop_first(),
        ) + rest));
        lemma_dec_kern_pair(s.first(), enc_kern_pairs(s.drop_first()) + rest);
        lemma_dec_kern_pairs(s.drop_first(), rest);
        assert(seq![s.first()] + s.drop_first() =~= s);
    }
}

// ------------------------------------------------------- metrics and atlas

/// The font-wide metrics, in field order.
pub open spec fn enc_font_layout(l: FontLayout) -> Seq<u8> {
    enc_scalar(l.advance_y) + enc_scalar(l.ascent) + enc_scalar(l.descent)
}

pub open spec fn dec_font_layout(b: Seq<u8>) -> Option<(FontLayout, Seq<u8>)> {
    match dec_scalar(b) {
        Some((advance_y, b1)) => match dec_scalar(b1) {
            Some((ascent, b2)) => match dec_scalar(b2) {
                Some((descent, b3)) => Some((FontLayout { advance_y, ascent, descent }, b3)),
                None => None,
            },
            None => None,
        },
        None => None,
    }
}

proof fn lemma_dec_font_layout(l: FontLayout, rest: Seq<u8>)
    ensures
        dec_font_layout(enc_font_layout(l) + rest) == Some((l, rest)),
{
    assert(enc_font_layout(l) + rest =~= enc_scalar(l.advance_y) + (enc_scalar(l.ascent) + (
    enc_scalar(l.descent) + rest)));
    lemma_dec_scalar(l.advance_y, enc_scalar(l.ascent) + (enc_scalar(l.descent) + rest));
    lemma_dec_scalar(l.ascent, enc_scalar(l.descent) + rest);
    lemma_dec_scalar(l.descent, rest);
}

/// The atlas: both resolution values, then the length-prefixed bitmap.
pub open spec fn enc_atlas(a: AtlasView) -> Seq<u8> {
    enc_u64(a.resolution.0 as u64) + enc_u64(a.resolution.1 as u64) + enc_u64(
        a.distance_field.len() as u64,
    ) + a.distance_field
}

pub open spec fn dec_atlas(b: Seq<u8>) -> Option<(AtlasView, Seq<u8>)> {
    match dec_u64(b) {
        Some((w, b1)) => if w > usize::MAX as u64 {
            None
        } else {
            match dec_u64(b1) {
                Some((h, b2)) => if h > usize::MAX as u64 {
                    None
                } else {
                    match dec_u64(b2) {
                        Some((n, b3)) => if b3.len() >= n {
                            Some(
                                (
                                    AtlasView {
                                        resolution: (w as usize, h as usize),
                                        distance_field: b3.take(n as int),
                                    },
                                    b3.skip(n as int),
                                ),
                            )
                        } else {
                            None
                        },
                        None => None,
                    }
                },
                None => None,
            }
        },
        None => None,
    }
}

proof fn lemma_dec_atlas(a: AtlasView, rest: Seq<u8>)
    requires
        a.distance_field.len() <= u64::MAX,
    ensures
        dec_atlas(enc_atlas(a) + rest) == Some((a, rest)),
{
    let w = a.resolution.0 as u64;
    let h = a.resolution.1 as u64;
    let n = a.distance_field.len() as u64;
    assert(enc_atlas(a) + rest =~= enc_u64(w) + (enc_u64(h) + (enc_u64(n) + (a.distance_field
        + rest))));
    lemma_dec_u64(w, enc_u64(h) + (enc_u64(n) + (a.distance_field + rest)));
    lemma_dec_u64(h, enc_u64(n) + (a.distance_field + rest));
    lemma_dec_u64(n, a.distance_field + rest);
    assert((a.distance_field + rest).take(n as int) =~= a.distance_field);
    assert((a.distance_field + rest).skip(n as int) =~= rest);
    assert(w as usize == a.resolution.0);
    assert(h as usize == a.resolution.1);
}

// ------------------------------------------------------------------- fonts

/// A whole font, in field order: the counted glyph list, the counted
/// kerning list, the metrics, the atlas.
pub open spec fn enc_font(f: SerializedFontView) -> Seq<u8> {
    enc_u64(f.glyphs.len() as u64) + enc_glyph_pairs(f.glyphs) + enc_u64(f.kerning.len() as u64)
        + enc_kern_pairs(f.kerning) + enc_font_layout(f.layout) + enc_atlas(f.atlas)
}

/// Which byte strings are a font, and which font: the decoder must consume
/// the whole input.
pub open spec fn dec_font(b: Seq<u8>) -> Option<SerializedFontView> {
    match dec_u64(b) {
        Some((ng, b1)) => match dec_glyph_pairs(b1, ng as nat) {
            Some((glyphs, b2)) => match dec_u64(b2) {
                Some((nk, b3)) => match dec_kern_pairs(b3, nk as nat) {
                    Some((kerning, b4)) => match dec_font_layout(b4) {
                        Some((layout, b5)) => match dec_atlas(b5) {
                            Some((atlas, b6)) => if b6.len() == 0 {
                                Some(SerializedFontView { glyphs, kerning, layout, atlas })
                            } else {
                                None
                            },
                            None => None,
                        },
                        None => None,
                    },
                    None => None,
                },
                None => None,
            },
            None => None,
        },
        None => None,
    }
}

/// Law: the codec round-trips. Every font that fits the format's counters
/// (every font that can exist in memory does) decodes from its own
/// encoding back to itself.
pub proof fn lemma_font_roundtrip(f: SerializedFontView)
    requires
        f.glyphs.len() <= u64::MAX,
        f.kerning.len() <= u64::MAX,
        f.atlas.distance_field.len() <= u64::MAX,
    ensures
        dec_font(enc_font(f)) == Some(f),
{
    let ng = f.glyphs.len() as u64;
    let nk = f.kerning.len() as u64;
    let tail2 = enc_u64(nk) + (enc_kern_pairs(f.kerning) + (enc_font_layout(f.layout) + (enc_atlas(
        f.atlas,
    ) + Seq::<u8>::empty())));
    assert(enc_font(f) =~= enc_u64(ng) + (enc_glyph_pairs(f.glyphs) + tail2));
    lemma_dec_u64(ng, enc_glyph_pairs(f.glyphs) + tail2);
    lemma_dec_glyph_pairs(f.glyphs, tail2);
    lemma_dec_u64(nk, enc_kern_pairs(f.kerning) + (enc_font_layout(f.layout) + (enc_atlas(f.atlas)
        + Seq::<u8>::empty())));
    lemma_dec_kern_pairs(
        f.kerning,
        enc_font_layout(f.layout) + (enc_atlas(f.atlas) + Seq::<u8>::empty()),
    );
    lemma_dec_font_layout(f.layout, enc_atlas(f.atlas) + Seq::<u8>::empty());
    lemma_dec_atlas(f.atlas, Seq::<u8>::empty());
}

// --------------------------------------------------------------- encoding

/// Relies on `char::from_u32`: a code point converts exactly when it is a
/// Unicode scalar value, and to the character with that code point.
pub assume_specification[ char::from_u32 ](u: u32) -> (r: Option<char>)
    ensures
        r is Some <==> is_scalar(u),
        r matches Some(c) ==> c as u32 == u,
;

fn write_u32(out: &mut Vec<u8>, x: u32)
    ensures
        final(out)@ == old(out)@ + enc_u32(x),
{
    out.push((x & 0xff) as u8);
    out.push(((x >> 8) & 0xff) as u8);
    out.push(((x >> 16) & 0xff) as u8);
    out.push(((x >> 24) & 0xff) as u8);
    proof {
        assert(out@ =~= old(out)@ + enc_u32(x));
    }
}

fn write_u64(out: &mut Vec<u8>, x: u64)
    ensures
        final(out)@ == old(out)@ + enc_u64(x),
{
    out.push((x & 0xff) as u8);
    out.push(((x >> 8) & 0xff) as u8);
    out.push(((x >> 16) & 0xff) as u8);
    out.push(((x >> 24) & 0xff) as u8);
    out.push(((x >> 32) & 0xff) as u8);
    out.push(((x >> 40) & 0xff) as u8);
    out.push(((x >> 48) & 0xff) as u8);
    out.push(((x >> 56) & 0xff) as u8);
    proof {
        assert(out@ =~= old(out)@ + enc_u64(x));
    }
}

fn write_char(out: &mut Vec<u8>, c: char)
    ensures
        final(out)@ == old(out)@ + enc_char(c),
{
    write_u32(out, c as u32);
}

fn write_scalar(out: &mut Vec<u8>, s: Scalar)
    ensures
        final(out)@ == old(out)@ + enc_scalar(s),
{
    write_u32(out, s.bits);
}

fn write_rect(out: &mut Vec<u8>, r: &Rectangle)
    ensures
        final(out)@ == old(out)@ + enc_rect(*r),
{
    write_scalar(out, r.position.0);
    write_scalar(out, r.position.1);
    write_scalar(out, r.dimensions.0);
    write_scalar(out, r.dimensions.1);
    proof {
        assert(out@ =~= old(out)@ + enc_rect(*r));
    }
}

fn write_quad(out: &mut Vec<u8>, q: &GlyphQuad)
    ensures
        final(out)@ == old(out)@ + enc_quad(*q),
{
    write_rect(out, &q.geometry);
    write_rect(out, &q.texture);
    proof {
        assert(out@ =~= old(out)@ + enc_quad(*q));
    }
}

fn write_glyph(out: &mut Vec<u8>, g: &GlyphLayout)
    ensures
        final(out)@ == old(out)@ + enc_glyph(*g),
{
    match g.quad {
        Some(q) => {
            out.push(1u8);
            write_quad(out, &q);
        },
        None => {
            out.push(0u8);
        },
    }
    write_scalar(out, g.advance_x);
    proof {
        assert(out@ =~= old(out)@ + enc_glyph(*g));
    }
}

fn write_glyph_pair(out: &mut Vec<u8>, p: &(char, GlyphLayout))
    ensures
        final(out)@ == old(out)@ + enc_glyph_pair(*p),
{
    write_char(out, p.0);
    write_glyph(out, &p.1);
    proof {
        assert(out@ =~= old(out)@ + enc_glyph_pair(*p));
    }
}

fn write_glyph_pairs(out: &mut Vec<u8>, s: &Vec<(char, GlyphLayout)>)
    ensures
        final(out)@ == old(out)@ + enc_glyph_pairs(s@),
{
    let mut i: usize = 0;
    while i < s.len()
        invariant
            i <= s.len(),
            out@ == old(out)@ + enc_glyph_pairs(s@.take(i as int)),
        decreases s.len() - i,
    {
        write_glyph_pair(out, &s[i]);
        proof {
            let taken = s@.take(i + 1 as int);
            lemma_enc_glyph_pairs_snoc(taken);
            assert(taken.drop_last() =~= s@.take(i as int));
            assert(taken.last() == s@[i as int]);
            assert(out@ =~= old(out)@ + enc_glyph_pairs(taken));
        }
        i = i + 1;
    }
    proof {
        assert(s@.take(s@.len() as int) =~= s@);
    }
}

fn write_kern_pair(out: &mut Vec<u8>, p: &((char, char), Scalar))
    ensures
        final(out)@ == old(out)@ + enc_kern_pair(*p),
{
    write_char(out, p.0.0);
    write_char(out, p.0.1);
    write_scalar(out, p.1);
    proof {
        assert(out@ =~= old(out)@ + enc_kern_pair(*p));
    }
}

fn write_kern_pairs(out: &mut Vec<u8>, s: &Vec<((char, char), Scalar)>)
    ensures
        final(out)@ == old(out)@ + enc_kern_pairs(s@),
{
    let mut i: usize = 0;
    while i < s.len()
        invariant
            i <= s.len(),
            out@ == old(out)@ + enc_kern_pairs(s@.take(i as int)),
        decreases s.len() - i,
    {
        write_kern_pair(out, &s[i]);
        proof {
            let taken = s@.take(i + 1 as int);
            lemma_enc_kern_pairs_snoc(taken);
            assert(taken.drop_last() =~= s@.take(i as int));
            assert(taken.last() == s@[i as int]);
            assert(out@ =~= old(out)@ + enc_kern_pairs(taken));
        }
        i = i + 1;
    }
    proof {
        assert(s@.take(s@.len() as int) =~= s@);
    }
}

fn write_font_layout(out: &mut Vec<u8>, l: &FontLayout)
    ensures
        final(out)@ == old(out)@ + enc_font_layout(*l),
{
    write_scalar(out, l.advance_y);
    write_scalar(out, l.ascent);
    write_scalar(out, l.descent);
    proof {
        assert(out@ =~= old(out)@ + enc_font_layout(*l));
    }
}

fn write_atlas(out: &mut Vec<u8>, a: &Atlas)
    ensures
        final(out)@ == old(out)@ + enc_atlas(a@),
{
    write_u64(out, a.resolution.0 as u64);
    write_u64(out, a.resolution.1 as u64);
    write_u64(out, a.distance_field.len() as u64);
    let mut i: usize = 0;
    let ghost mid = out@;
    while i < a.distance_field.len()
        invariant
            i <= a.distance_field.len(),
            out@ == mid + a.distance_field@.take(i as int),
        decreases a.distance_field.len() - i,
    {
        out.push(a.distance_field[i]);
        proof {
            assert(mid + a.distance_field@.take(i + 1 as int) =~= (mid
                + a.distance_field@.take(i as int)).push(a.distance_field@[i as int]));
        }
        i = i + 1;
    }
    proof {
        assert(a.distance_field@.take(a.distance_field@.len() as int) =~= a.distance_field@);
        assert(out@ =~= old(out)@ + enc_atlas(a@));
    }
}

/// The structural encoding of a font, as the format fixes it.
pub fn encode_font(f: &SerializedFont) -> (r: Vec<u8>)
    ensures
        r@ == enc_font(f@),
{
    let mut out: Vec<u8> = Vec::new();
    write_u64(&mut out, f.glyphs.len() as u64);
    write_glyph_pairs(&mut out, &f.glyphs);
    write_u64(&mut out, f.kerning.len() as u64);
    write_kern_pairs(&mut out, &f.kerning);
    write_font_layout(&mut out, &f.layout);
    write_atlas(&mut out, &f.atlas);
    proof {
        assert(out@ =~= enc_font(f@));
    }
    out
}

// --------------------------------------------------------------- decoding

fn read_u32(bytes: &[u8], pos: usize) -> (r: Result<(u32, usize), DecodeError>)
    requires
        pos <= bytes@.len(),
    ensures
        match r {
            Ok((v, end)) => pos <= end <= bytes@.len() && dec_u32(bytes@.skip(pos as int))
                == Some((v, bytes@.skip(end as int))),
            Err(e) => dec_u32(bytes@.skip(pos as int)) is None,
        },
{
    if bytes.len() - pos >= 4 {
        let v = (bytes[pos] as u32) | ((bytes[pos + 1] as u32) << 8) | ((bytes[pos + 2]
            as u32) << 16) | ((bytes[pos + 3] as u32) << 24);
        proof {
            let s = bytes@.skip(pos as int);
            assert(s[0] == bytes@[pos as int]);
            assert(s[1] == bytes@[pos as int + 1]);
            assert(s[2] == bytes@[pos as int + 2]);
            assert(s[3] == bytes@[pos as int + 3]);
            assert(s.skip(4) =~= bytes@.skip(pos as int + 4));
        }
        Ok((v, pos + 4))
    } else {
        Err(DecodeError::UnexpectedEnd)
    }
}

fn read_u64(bytes: &[u8], pos: usize) -> (r: Result<(u64, usize), DecodeError>)
    requires
        pos <= bytes@.len(),
    ensures
        match r {
            Ok((v, end)) => pos <= end <= bytes@.len() && dec_u64(bytes@.skip(pos as int))
                == Some((v, bytes@.skip(end as int))),
            Err(e) => dec_u64(bytes@.skip(pos as int)) is None,
        },
{
    if bytes.len() - pos >= 8 {
        let v = (bytes[pos] as u64) | ((bytes[pos + 1] as u64) << 8) | ((bytes[pos + 2]
            as u64) << 16) | ((bytes[pos + 3] as u64) << 24) | ((bytes[pos + 4] as u64) << 32) | ((
        bytes[pos + 5] as u64) << 40) | ((bytes[pos + 6] as u64) << 48) | ((bytes[pos + 7]
            as u64) << 56);
        proof {
            let s = bytes@.skip(pos as int);
            assert(s[0] == bytes@[pos as int]);
            assert(s[1] == bytes@[pos as int + 1]);
            assert(s[2] == bytes@[pos as int + 2]);
            assert(s[3] == bytes@[pos as int + 3]);
            assert(s[4] == bytes@[pos as int + 4]);
            assert(s[5] == bytes@[pos as int + 5]);
            assert(s[6] == bytes@[pos as int + 6]);
            assert(s[7] == bytes@[pos as int + 7]);
            assert(s.skip(8) =~= bytes@.skip(pos as int + 8));
        }
        Ok((v, pos + 8))
    } else {
        Err(DecodeError::UnexpectedEnd)
    }
}

fn read_char(bytes: &[u8], pos: usize) -> (r: Result<(char, usize), DecodeError>)
    requires
        pos <= bytes@.len(),
    ensures
        match r {
            Ok((c, end)) => pos <= end <= bytes@.len() && dec_char(bytes@.skip(pos as int))
                == Some((c, bytes@.skip(end as int))),
            Err(e) => dec_char(bytes@.skip(pos as int)) is None,
        },
{
    match read_u32(bytes, pos) {
        Ok((u, end)) => match char::from_u32(u) {
            Some(c) => {
                proof {
                    vstd::utf8::char_u32_cast(c, u);
                }
                Ok((c, end))
            },
            None => Err(DecodeError::BadCharacter),
        },
        Err(e) => Err(e),
    }
}

fn read_scalar(bytes: &[u8], pos: usize) -> (r: Result<(Scalar, usize), DecodeError>)
    requires
        pos <= bytes@.len(),
    ensures
        match r {
            Ok((s, end)) => pos <= end <= bytes@.len() && dec_scalar(bytes@.skip(pos as int))
                == Some((s, bytes@.skip(end as int))),
            Err(e) => dec_scalar(bytes@.skip(pos as int)) is None,
        },
{
    match read_u32(bytes, pos) {
        Ok((u, end)) => Ok((Scalar { bits: u }, end)),
        Err(e) => Err(e),
    }
}

fn read_rect(bytes: &[u8], pos: usize) -> (r: Result<(Rectangle, usize), DecodeError>)
    requires
        pos <= bytes@.len(),
    ensures
        match r {
            Ok((v, end)) => pos <= end <= bytes@.len() && dec_rect(bytes@.skip(pos as int))
                == Some((v, bytes@.skip(end as int))),
            Err(e) => dec_rect(bytes@.skip(pos as int)) is None,
        },
{
    match read_scalar(bytes, pos) {
        Ok((px, p1)) => match read_scalar(bytes, p1) {
            Ok((py, p2)) => match read_scalar(bytes, p2) {
                Ok((dx, p3)) => match read_scalar(bytes, p3) {
                    Ok((dy, p4)) => Ok(
                        (Rectangle { position: (px, py), dimensions: (dx, dy) }, p4),
                    ),
                    Err(e) => Err(e),
                },
                Err(e) => Err(e),
            },
            Err(e) => Err(e),
        },
        Err(e) => Err(e),
    }
}

fn read_quad(bytes: &[u8], pos: usize) -> (r: Result<(GlyphQuad, usize), DecodeError>)
    requires
        pos <= bytes@.len(),
    ensures
        match r {
            Ok((v, end)) => pos <= end <= bytes@.len() && dec_quad(bytes@.skip(pos as int))
                == Some((v, bytes@.skip(end as int))),
            Err(e) => dec_quad(bytes@.skip(pos as int)) is None,
        },
{
    match read_rect(bytes, pos) {
        Ok((geometry, p1)) => match read_rect(bytes, p1) {
            Ok((texture, p2)) => Ok((GlyphQuad { geometry, texture }, p2)),
            Err(e) => Err(e),
        },
        Err(e) => Err(e),
    }
}

fn read_glyph(bytes: &[u8], pos: usize) -> (r: Result<(GlyphLayout, usize), DecodeError>)
    requires
        pos <= bytes@.len(),
    ensures
        match r {
            Ok((v, end)) => pos <= end <= bytes@.len() && dec_glyph(bytes@.skip(pos as int))
                == Some((v, bytes@.skip(end as int))),
            Err(e) => dec_glyph(bytes@.skip(pos as int)) is None,
        },
{
    if pos >= bytes.len() {
        return Err(DecodeError::UnexpectedEnd);
    }
    let tag = bytes[pos];
    proof {
        assert(bytes@.skip(pos as int)[0] == bytes@[pos as int]);
        assert(bytes@.skip(pos as int).skip(1) =~= bytes@.skip(pos as int + 1));
    }
    if tag == 0 {
        match read_scalar(bytes, pos + 1) {
            Ok((advance_x, p1)) => Ok((GlyphLayout { quad: None, advance_x }, p1)),
            Err(e) => Err(e),
        }
    } else if tag == 1 {
        match read_quad(bytes, pos + 1) {
            Ok((q, p1)) => match read_scalar(bytes, p1) {
                Ok((advance_x, p2)) => Ok((GlyphLayout { quad: Some(q), advance_x }, p2)),
                Err(e) => Err(e),
            },
            Err(e) => Err(e),
        }
    } else {
        Err(DecodeError::BadDiscriminant)
    }
}

fn read_glyph_pair(bytes: &[u8], pos: usize) -> (r: Result<
    ((char, GlyphLayout), usize),
    DecodeError,
>)
    requires
        pos <= bytes@.len(),
    ensures
        match r {
            Ok((v, end)) => pos <= end <= bytes@.len() && dec_glyph_pair(bytes@.skip(pos as int))
                == Some((v, bytes@.skip(end as int))),
            Err(e) => dec_glyph_pair(bytes@.skip(pos as int)) is None,
        },
{
    match read_char(bytes, pos) {
        Ok((c, p1)) => match read_glyph(bytes, p1) {
            Ok((g, p2)) => Ok(((c, g), p2)),
            Err(e) => Err(e),
        },
        Err(e) => Err(e),
    }
}

fn read_glyph_pairs(bytes: &[u8], pos: usize, n: u64) -> (r: Result<
    (Vec<(char, GlyphLayout)>, usize),
    DecodeError,
>)
    requires
        pos <= bytes@.len(),
    ensures
        match r {
            Ok((v, end)) => pos <= end <= bytes@.len() && dec_glyph_pairs(
                bytes@.skip(pos as int),
                n as nat,
            ) == Some((v@, bytes@.skip(end as int))),
            Err(e) => dec_glyph_pairs(bytes@.skip(pos as int), n as nat) is None,
        },
{
    let mut acc: Vec<(char, GlyphLayout)> = Vec::new();
    let mut k: u64 = 0;
    let mut cursor: usize = pos;
    loop
        invariant
            k <= n,
            pos <= cursor <= bytes@.len(),
            (match dec_glyph_pairs(bytes@.skip(cursor as int), (n - k) as nat) {
                Some((s, rest)) => dec_glyph_pairs(bytes@.skip(pos as int), n as nat) == Some(
                    (acc@ + s, rest),
                ),
                None => dec_glyph_pairs(bytes@.skip(pos as int), n as nat) is None,
            }),
        decreases n - k,
    {
        if k == n {
            proof {
                assert(acc@ + Seq::<(char, GlyphLayout)>::empty() =~= acc@);
            }
            return Ok((acc, cursor));
        }
        match read_glyph_pair(bytes, cursor) {
            Ok((p, end)) => {
                proof {
                    let remaining = (n - k) as nat;
                    let after = dec_glyph_pairs(bytes@.skip(end as int), (remaining - 1) as nat);
                    if let Some((s, rest)) = after {
                        assert(acc@.push(p) + s =~= acc@ + (seq![p] + s));
                    }
                }
                acc.push(p);
                cursor = end;
                k = k + 1;
            },
            Err(e) => {
                return Err(e);
            },
        }
    }
}

fn read_kern_pairs(bytes: &[u8], pos: usize, n: u64) -> (r: Result<
    (Vec<((char, char), Scalar)>, usize),
    DecodeError,
>)
    requires
        pos <= bytes@.len(),
    ensures
        match r {
            Ok((v, end)) => pos <= end <= bytes@.len() && dec_kern_pairs(
                bytes@.skip(pos as int),
                n as nat,
            ) == Some((v@, bytes@.skip(end as int))),
            Err(e) => dec_kern_pairs(bytes@.skip(pos as int), n as nat) is None,
        },
{
    let mut acc: Vec<((char, char), Scalar)> = Vec::new();
    let mut k: u64 = 0;
    let mut cursor: usize = pos;
    loop
        invariant
            k <= n,
            pos <= cursor <= bytes@.len(),
            (match dec_kern_pairs(bytes@.skip(cursor as int), (n - k) as nat) {
                Some((s, rest)) => dec_kern_pairs(bytes@.skip(pos as int), n as nat) == Some(
                    (acc@ + s, rest),
                ),
                None => dec_kern_pairs(bytes@.skip(pos as int), n as nat) is None,
            }),
        decreases n - k,
    {
        if k == n {
            proof {
                assert(acc@ + Seq::<((char, char), Scalar)>::empty() =~= acc@);
            }
            return Ok((acc, cursor));
        }
        match read_kern_pair(bytes, cursor) {
            Ok((p, end)) => {
                proof {
                    let remaining = (n - k) as nat;
                    let after = dec_kern_pairs(bytes@.skip(end as int), (remaining - 1) as nat);
                    if let Some((s, rest)) = after {
                        assert(acc@.push(p) + s =~= acc@ + (seq![p] + s));
                    }
                }
                acc.push(p);
                cursor = end;
                k = k + 1;
            },
            Err(e) => {
                return Err(e);
            },
        }
    }
}

fn read_kern_pair(bytes: &[u8], pos: usize) -> (r: Result<
    (((char, char), Scalar), usize),
    DecodeError,
>)
    requires
        pos <= bytes@.len(),
    ensures
        match r {
            Ok((v, end)) => pos <= end <= bytes@.len() && dec_kern_pair(bytes@.skip(pos as int))
                == Some((v, bytes@.skip(end as int))),
            Err(e) => dec_kern_pair(bytes@.skip(pos as int)) is None,
        },
{
    match read_char(bytes, pos) {
        Ok((c0, p1)) => match read_char(bytes, p1) {
            Ok((c1, p2)) => match read_scalar(bytes, p2) {
                Ok((adjustment, p3)) => Ok((((c0, c1), adjustment), p3)),
                Err(e) => Err(e),
            },
            Err(e) => Err(e),
        },
        Err(e) => Err(e),
    }
}

fn read_font_layout(bytes: &[u8], pos: usize) -> (r: Result<(FontLayout, usize), DecodeError>)
    requires
        pos <= bytes@.len(),
    ensures
        match r {
            Ok((v, end)) => pos <= end <= bytes@.len() && dec_font_layout(bytes@.skip(pos as int))
                == Some((v, bytes@.skip(end as int))),
            Err(e) => dec_font_layout(bytes@.skip(pos as int)) is None,
        },
{
    match read_scalar(bytes, pos) {
        Ok((advance_y, p1)) => match read_scalar(bytes, p1) {
            Ok((ascent, p2)) => match read_scalar(bytes, p2) {
                Ok((descent, p3)) => Ok((FontLayout { advance_y, ascent, descent }, p3)),
                Err(e) => Err(e),
            },
            Err(e) => Err(e),
        },
        Err(e) => Err(e),
    }
}

fn read_atlas(bytes: &[u8], pos: usize) -> (r: Result<(Atlas, usize), DecodeError>)
    requires
        pos <= bytes@.len(),
    ensures
        match r {
            Ok((v, end)) => pos <= end <= bytes@.len() && dec_atlas(bytes@.skip(pos as int))
                == Some((v@, bytes@.skip(end as int))),
            Err(e) => dec_atlas(bytes@.skip(pos as int)) is None,
        },
{
    match read_u64(bytes, pos) {
        Ok((w, p1)) => {
            if w > usize::MAX as u64 {
                return Err(DecodeError::Oversize);
            }
            match read_u64(bytes, p1) {
                Ok((h, p2)) => {
                    if h > usize::MAX as u64 {
                        return Err(DecodeError::Oversize);
                    }
                    match read_u64(bytes, p2) {
                        Ok((n, p3)) => {
                            if n > (bytes.len() - p3) as u64 {
                                return Err(DecodeError::UnexpectedEnd);
                            }
                            let n_usize = n as usize;
                            let field = slice_to_vec(slice_subrange(bytes, p3, p3 + n_usize));
                            proof {
                                let b3 = bytes@.skip(p3 as int);
                                assert(field@ =~= b3.take(n as int));
                                assert(b3.skip(n as int) =~= bytes@.skip(p3 as int + n as int));
                            }
                            Ok(
                                (
                                    Atlas {
                                        resolution: (w as usize, h as usize),
                                        distance_field: field,
                                    },
                                    p3 + n_usize,
                                ),
                            )
                        },
                        Err(e) => Err(e),
                    }
                },
                Err(e) => Err(e),
            }
        },
        Err(e) => Err(e),
    }
}

/// The structural decoding of a font: succeeds exactly on the byte strings
/// that [`dec_font`] accepts, and returns the font they encode. The whole
/// input must be consumed.
pub fn decode_font(bytes: &[u8]) -> (r: Result<SerializedFont, DecodeError>)
    ensures
        match r {
            Ok(s) => dec_font(bytes@) == Some(s@),
            Err(e) => dec_font(bytes@) is None,
        },
{
    proof {
        assert(bytes@.skip(0) =~= bytes@);
    }
    match read_u64(bytes, 0) {
        Ok((ng, p1)) => match read_glyph_pairs(bytes, p1, ng) {
            Ok((glyphs, p2)) => match read_u64(bytes, p2) {
                Ok((nk, p3)) => match read_kern_pairs(bytes, p3, nk) {
                    Ok((kerning, p4)) => match read_font_layout(bytes, p4) {
                        Ok((layout, p5)) => match read_atlas(bytes, p5) {
                            Ok((atlas, p6)) => {
                                if p6 == bytes.len() {
                                    Ok(SerializedFont { glyphs, kerning, layout, atlas })
                                } else {
                                    Err(DecodeError::TrailingBytes)
                                }
                            },
                            Err(e) => Err(e),
                        },
                        Err(e) => Err(e),
                    },
                    Err(e) => Err(e),
                },
                Err(e) => Err(e),
            },
            Err(e) => Err(e),
        },
        Err(e) => Err(e),
    }
}

} // verus!
