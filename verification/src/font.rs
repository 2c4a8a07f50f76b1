//! The font and atlas data model.
//!
//! A [`Font`] aggregates per-character glyph metrics, a kerning table,
//! font-wide vertical metrics, and the atlas bitmap. A [`SerializedFont`]
//! is the same data in the shape the persisted format uses: ordered lists
//! of key-value pairs instead of maps.

use vstd::prelude::*;
use crate::scalar::Scalar;
use crate::rectangle::Rectangle;
use crate::tables::GlyphTable;
use crate::tables::KerningTable;
use crate::tables::glyph_entries;
use crate::tables::kern_entries;
use crate::tables::assoc_map;
use crate::tables::first_components;
use crate::codec::DecodeError;
use crate::codec::enc_font;
use crate::codec::dec_font;
use crate::codec::encode_font;
use crate::codec::decode_font;
use crate::codec::lemma_font_roundtrip;
use crate::compress::DecompressError;
use crate::compress::lz4_of;
use crate::compress::lz4_decompressed;
use crate::compress::compress;
use crate::compress::decompress;

verus! {

/// The failures of reading or writing a persisted font.
#[derive(Clone, Copy, PartialEq, Eq, Debug)]
pub enum Error {
    /// The input was not a complete, valid compressed stream.
    Decompress(DecompressError),
    /// The decompressed bytes were not a valid structural encoding of a
    /// font, or did not end where the structure ended.
    Decode(DecodeError),
}

impl From<DecodeError> for Error {
    fn from(error: DecodeError) -> (r: Self) {
        Error::Decode(error)
    }
}

impl vstd::std_specs::convert::FromSpecImpl<DecodeError> for Error {
    open spec fn obeys_from_spec() -> bool {
        true
    }

    open spec fn from_spec(error: DecodeError) -> Self {
        Error::Decode(error)
    }
}

impl From<DecompressError> for Error {
    fn from(error: DecompressError) -> (r: Self) {
        Error::Decompress(error)
    }
}

impl vstd::std_specs::convert::FromSpecImpl<DecompressError> for Error {
    open spec fn obeys_from_spec() -> bool {
        true
    }

    open spec fn from_spec(error: DecompressError) -> Self {
        Error::Decompress(error)
    }
}

/// The pair of rectangles needed to draw one glyph: where its quad sits
/// once placed (`geometry`) and where to sample it in the atlas (`texture`).
#[derive(Clone, Copy, PartialEq, Debug)]
pub struct GlyphQuad {
    pub geometry: Rectangle,
    pub texture: Rectangle,
}

/// Per-character metrics: characters such as `' '` and `'\t'` have no
/// visible quad, but always an `advance_x`.
#[derive(Clone, Copy, PartialEq, Debug)]
pub struct GlyphLayout {
    pub quad: Option<GlyphQuad>,
    pub advance_x: Scalar,
}

/// Font-wide vertical metrics.
#[derive(Clone, Copy, PartialEq, Debug)]
pub struct FontLayout {
    pub advance_y: Scalar,
    pub ascent: Scalar,
    pub descent: Scalar,
}

/// The atlas: a single-channel distance-field bitmap of
/// `resolution.0 * resolution.1` bytes, opaque payload for the renderer.
#[derive(PartialEq, Debug)]
pub struct Atlas {
    pub resolution: (usize, usize),
    pub distance_field: Vec<u8>,
}

/// A font: glyph metrics per character, kerning per ordered character
/// pair, vertical metrics, and the atlas.
pub struct Font {
    pub glyphs: GlyphTable,
    pub kerning: KerningTable,
    pub layout: FontLayout,
    pub atlas: Atlas,
}

/// A font in the shape the persisted format uses: the maps flattened into
/// ordered lists of key-value pairs.
#[derive(PartialEq, Debug)]
pub struct SerializedFont {
    pub glyphs: Vec<(char, GlyphLayout)>,
    pub kerning: Vec<((char, char), Scalar)>,
    pub layout: FontLayout,
    pub atlas: Atlas,
}

/// The mathematical content of an [`Atlas`].
pub ghost struct AtlasView {
    pub resolution: (usize, usize),
    pub distance_field: Seq<u8>,
}

impl View for Atlas {
    type V = AtlasView;

    open spec fn view(&self) -> AtlasView {
        AtlasView { resolution: self.resolution, distance_field: self.distance_field@ }
    }
}

/// The mathematical content of a [`Font`]: its two tables as maps, its
/// metrics and its atlas.
pub ghost struct FontView {
    pub glyphs: Map<char, GlyphLayout>,
    pub kerning: Map<(char, char), Scalar>,
    pub layout: FontLayout,
    pub atlas: AtlasView,
}

impl View for Font {
    type V = FontView;

    open spec fn view(&self) -> FontView {
        FontView {
            glyphs: glyph_entries(self.glyphs),
            kerning: kern_entries(self.kerning),
            layout: self.layout,
            atlas: self.atlas@,
        }
    }
}

/// The mathematical content of a [`SerializedFont`].
pub ghost struct SerializedFontView {
    pub glyphs: Seq<(char, GlyphLayout)>,
    pub kerning: Seq<((char, char), Scalar)>,
    pub layout: FontLayout,
    pub atlas: AtlasView,
}

impl View for SerializedFont {
    type V = SerializedFontView;

    open spec fn view(&self) -> SerializedFontView {
        SerializedFontView {
            glyphs: self.glyphs@,
            kerning: self.kerning@,
            layout: self.layout,
            atlas: self.atlas@,
        }
    }
}

/// The font a serialized form describes: the maps rebuilt from the pair
/// lists, a later entry with a duplicate key overwriting an earlier one.
pub open spec fn rebuilt(s: SerializedFontView) -> FontView {
    FontView {
        glyphs: assoc_map(s.glyphs),
        kerning: assoc_map(s.kerning),
        layout: s.layout,
        atlas: s.atlas,
    }
}

/// What a persisted byte string holds: the serialized font that its
/// decompressed stream encodes, or nothing where decompression or decoding
/// rejects it.
pub open spec fn persisted_font(bytes: Seq<u8>) -> Option<SerializedFontView> {
    match lz4_decompressed(bytes) {
        Some(decompressed) => dec_font(decompressed),
        None => None,
    }
}

impl Font {
    /// Rebuilds a font from its serialized shape, a later entry with a
    /// duplicate key overwriting an earlier one.
    pub fn deserialized(serialized: SerializedFont) -> (r: Font)
        ensures
            r@ == rebuilt(serialized@),
    {
        let mut glyphs = GlyphTable::new();
        let mut i: usize = 0;
        while i < serialized.glyphs.len()
            invariant
                i <= serialized.glyphs.len(),
                glyph_entries(glyphs) == assoc_map(serialized.glyphs@.take(i as int)),
            decreases serialized.glyphs.len() - i,
        {
            let (c, g) = serialized.glyphs[i];
            glyphs.insert(c, g);
            proof {
                let taken = serialized.glyphs@.take(i + 1 as int);
                assert(taken.drop_last() =~= serialized.glyphs@.take(i as int));
                assert(taken.last() == (c, g));
            }
            i = i + 1;
        }
        let mut kerning = KerningTable::new();
        let mut j: usize = 0;
        while j < serialized.kerning.len()
            invariant
                j <= serialized.kerning.len(),
                kern_entries(kerning) == assoc_map(serialized.kerning@.take(j as int)),
            decreases serialized.kerning.len() - j,
        {
            let (pair, adjustment) = serialized.kerning[j];
            kerning.insert(pair, adjustment);
            proof {
                let taken = serialized.kerning@.take(j + 1 as int);
                assert(taken.drop_last() =~= serialized.kerning@.take(j as int));
                assert(taken.last() == (pair, adjustment));
            }
            j = j + 1;
        }
        proof {
            assert(serialized.glyphs@.take(serialized.glyphs@.len() as int)
                =~= serialized.glyphs@);
            assert(serialized.kerning@.take(serialized.kerning@.len() as int)
                =~= serialized.kerning@);
        }
        Font { glyphs, kerning, layout: serialized.layout, atlas: serialized.atlas }
    }

    /// Flattens a font into its serialized shape. The pair lists carry each
    /// entry of the maps exactly once; their order is not promised.
    pub fn serialized(self) -> (r: SerializedFont)
        ensures
            rebuilt(r@) == self@,
            first_components(r@.glyphs).no_duplicates(),
            first_components(r@.kerning).no_duplicates(),
    {
        SerializedFont {
            glyphs: self.glyphs.entries(),
            kerning: self.kerning.entries(),
            layout: self.layout,
            atlas: self.atlas,
        }
    }

    /// Persists this font: it is flattened to its serialized shape,
    /// structurally encoded, and compressed. Some serialized shape of this
    /// font (its entries in some order, each exactly once) is what the
    /// bytes hold.
    pub fn write(self) -> (r: Vec<u8>)
        ensures
            exists|s: SerializedFontView|
                {
                    &&& rebuilt(s) == self@
                    &&& first_components(s.glyphs).no_duplicates()
                    &&& first_components(s.kerning).no_duplicates()
                    &&& s.glyphs.len() <= u64::MAX
                    &&& s.kerning.len() <= u64::MAX
                    &&& s.atlas.distance_field.len() <= u64::MAX
                    &&& r@ == #[trigger] lz4_of(enc_font(s))
                },
    {
        let ghost me = self@;
        let serialized = self.serialized();
        let ghost witness = serialized@;
        let r = serialized.write();
        proof {
            assert(witness.glyphs.len() == serialized.glyphs.len());
            assert(witness.kerning.len() == serialized.kerning.len());
            assert(witness.atlas.distance_field.len() == serialized.atlas.distance_field.len());
            assert(rebuilt(witness) == me && r@ == lz4_of(enc_font(witness)));
        }
        r
    }

    /// Reads a font from persisted bytes: decompression, structural
    /// decoding, and the rebuild of the maps. It succeeds exactly where
    /// the bytes persist a font, with the decompression and decoding
    /// failures told apart; in particular it succeeds on the bytes that
    /// [`Font::write`] produces, and yields the font those bytes
    /// serialize. Every failure is terminal for the call: no partial font
    /// is produced.
    pub fn read(bytes: &[u8]) -> (r: Result<Font, Error>)
        ensures
            r is Ok <==> persisted_font(bytes@) is Some,
            r matches Ok(f) ==> (persisted_font(bytes@) matches Some(s) && f@ == rebuilt(s)),
            (r matches Err(Error::Decompress(_))) <==> lz4_decompressed(bytes@) is None,
            (r matches Err(Error::Decode(_))) <==> (lz4_decompressed(bytes@) matches Some(d)
                && dec_font(d) is None),
            forall|s: SerializedFontView|
                (bytes@ == lz4_of(enc_font(s)) && s.glyphs.len() <= u64::MAX && s.kerning.len()
                    <= u64::MAX && s.atlas.distance_field.len() <= u64::MAX) ==> (r matches Ok(f)
                    && f@ == rebuilt(s)),
    {
        match SerializedFont::read(bytes) {
            Ok(serialized) => {
                let ghost sv = serialized@;
                proof {
                    assert(sv.glyphs.len() == serialized.glyphs.len());
                    assert(sv.kerning.len() == serialized.kerning.len());
                    assert(sv.atlas.distance_field.len()
                        == serialized.atlas.distance_field.len());
                    lemma_font_roundtrip(sv);
                }
                let font = Font::deserialized(serialized);
                Ok(font)
            },
            Err(e) => Err(e),
        }
    }
}

impl SerializedFont {
    /// The structural encoding of this serialized font, without
    /// compression.
    pub fn write_uncompressed(&self) -> (r: Vec<u8>)
        ensures
            r@ == enc_font(self@),
    {
        encode_font(self)
    }

    /// Decodes a structural encoding, without compression: succeeds
    /// exactly on the byte strings that encode a font and end where the
    /// structure ends.
    pub fn read_uncompressed(bytes: &[u8]) -> (r: Result<SerializedFont, DecodeError>)
        ensures
            match r {
                Ok(s) => dec_font(bytes@) == Some(s@),
                Err(e) => dec_font(bytes@) is None,
            },
    {
        decode_font(bytes)
    }

    /// The persisted bytes of this serialized font: its structural
    /// encoding, compressed.
    pub fn write(&self) -> (r: Vec<u8>)
        ensures
            r@ == lz4_of(enc_font(self@)),
    {
        let uncompressed = encode_font(self);
        compress(uncompressed.as_slice())
    }

    /// Reads a serialized font back from persisted bytes: decompression,
    /// then structural decoding. It succeeds exactly where the bytes
    /// persist a font, and the error tells a rejected stream from a
    /// stream whose contents encode no font; in particular it succeeds on
    /// the bytes that [`SerializedFont::write`] produces for any
    /// serialized font whose counts fit the format, and returns exactly
    /// that font.
    pub fn read(bytes: &[u8]) -> (r: Result<SerializedFont, Error>)
        ensures
            r is Ok <==> persisted_font(bytes@) is Some,
            r matches Ok(f) ==> Some(f@) == persisted_font(bytes@),
            (r matches Err(Error::Decompress(_))) <==> lz4_decompressed(bytes@) is None,
            (r matches Err(Error::Decode(_))) <==> (lz4_decompressed(bytes@) matches Some(d)
                && dec_font(d) is None),
            forall|s: SerializedFontView|
                (bytes@ == lz4_of(enc_font(s)) && s.glyphs.len() <= u64::MAX && s.kerning.len()
                    <= u64::MAX && s.atlas.distance_field.len() <= u64::MAX) ==> (r matches Ok(f)
                    && f@ == s),
    {
        match decompress(bytes) {
            Ok(decompressed) => {
                match decode_font(decompressed.as_slice()) {
                    Ok(f) => {
                        proof {
                            assert forall|s: SerializedFontView|
                                (bytes@ == lz4_of(enc_font(s)) && s.glyphs.len() <= u64::MAX
                                    && s.kerning.len() <= u64::MAX
                                    && s.atlas.distance_field.len()
                                    <= u64::MAX) implies f@ == s by {
                                lemma_font_roundtrip(s);
                            }
                            assert(dec_font(decompressed@) == Some(f@));
                        }
                        Ok(f)
                    },
                    Err(e) => {
                        proof {
                            assert forall|s: SerializedFontView|
                                !(bytes@ == lz4_of(enc_font(s)) && s.glyphs.len() <= u64::MAX
                                    && s.kerning.len() <= u64::MAX
                                    && s.atlas.distance_field.len() <= u64::MAX) by {
                                if bytes@ == lz4_of(enc_font(s)) && s.glyphs.len() <= u64::MAX
                                    && s.kerning.len() <= u64::MAX
                                    && s.atlas.distance_field.len() <= u64::MAX {
                                    lemma_font_roundtrip(s);
                                }
                            }
                        }
                        Err(Error::Decode(e))
                    },
                }
            },
            Err(e) => Err(Error::Decompress(e)),
        }
    }
}

} // verus!
