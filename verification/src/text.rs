//! The layout engine: a stateful, pull-based transformer that consumes a
//! character sequence and a font, and produces one positioned glyph quad
//! per renderable character.
//!
//! Per pulled character, exactly one of three policies applies:
//! a line break (`'\n'`) moves the caret one line down and resets its x
//! position and the index within the line; any other control character is
//! skipped without touching the state, except the tab, which is not given
//! special treatment: it is displayable. Every displayable character goes
//! through the glyph table:
//! kerning against the previous displayable character is added to the caret,
//! the glyph's metrics are looked up (a character absent from the glyph
//! table is reported as a [`LookupError`]), the caret advances by the
//! glyph's advance, and, if the glyph has a visible quad, a [`BuiltGlyph`]
//! is emitted at the caret position captured before the advance.
//!
//! The previous-character kerning memory is deliberately not reset on a
//! line break: a kerning pair that straddles a line break still applies.
//! [`lemma_line_break`] states this policy exactly.

use vstd::prelude::*;
use crate::scalar::Scalar;
use crate::scalar::spec_zero;
use crate::scalar::zero;
use crate::font::Font;
use crate::font::FontView;
use crate::font::GlyphQuad;

verus! {

/// The failure reported when a displayable character is absent from the
/// font's glyph table.
#[derive(Clone, Copy, PartialEq, Debug)]
pub struct LookupError {
    pub character: char,
}

/// One positioned glyph: the character it draws, the line and the index
/// within the line at which it was placed, and its quad with the geometry
/// rectangle already translated to the page position.
#[derive(Clone, Copy, PartialEq, Debug)]
pub struct BuiltGlyph {
    pub character: char,
    pub index_in_line: usize,
    pub line: usize,
    pub quad: GlyphQuad,
}

/// The mathematical content of a [`BuiltGlyph`].
pub ghost struct BuiltGlyphView {
    pub character: char,
    pub index_in_line: nat,
    pub line: nat,
    pub quad: GlyphQuad,
}

impl View for BuiltGlyph {
    type V = BuiltGlyphView;

    open spec fn view(&self) -> BuiltGlyphView {
        BuiltGlyphView {
            character: self.character,
            index_in_line: self.index_in_line as nat,
            line: self.line as nat,
            quad: self.quad,
        }
    }
}

/// The engine's per-character bookkeeping: the caret, the previous
/// displayable character (the kerning memory), the current line, and the
/// index within the line.
pub ghost struct LayoutState {
    pub caret: (Scalar, Scalar),
    pub previous_char: Option<char>,
    pub line: nat,
    pub index_in_line: nat,
}

/// The state a fresh engine starts from: caret at the origin, no kerning
/// memory, line and index zero.
pub open spec fn initial_layout_state() -> LayoutState {
    LayoutState {
        caret: (spec_zero(), spec_zero()),
        previous_char: None,
        line: 0,
        index_in_line: 0,
    }
}

/// A control character in the sense of the engine's classification: the
/// Unicode control category, except the tab. A tab is treated as a
/// glyph-table lookup like any other displayable character, so a font may
/// give it an advance (and no visible quad, like the space).
pub open spec fn is_control_char(c: char) -> bool {
    c != '\t' && ((c as u32) < 32 || (127 <= (c as u32) && (c as u32) <= 159))
}

/// The kerning adjustment for `current` following `previous`: the entry of
/// the kerning table, or zero when the pair is absent.
pub open spec fn kerning_adjustment(font: FontView, previous: char, current: char) -> Scalar {
    if font.kerning.contains_key((previous, current)) {
        font.kerning[(previous, current)]
    } else {
        spec_zero()
    }
}

/// The caret x position after applying kerning for `c`: unchanged when no
/// displayable character came before.
pub open spec fn kerned_x(font: FontView, st: LayoutState, c: char) -> Scalar {
    match st.previous_char {
        Some(previous) => st.caret.0.spec_plus(kerning_adjustment(font, previous, c)),
        None => st.caret.0,
    }
}

/// What one emission may be: nothing, a placed glyph, or a reported
/// lookup failure.
pub open spec fn lookup_failure(c: char) -> Option<Result<BuiltGlyphView, LookupError>> {
    Some(Err(LookupError { character: c }))
}

/// The engine's transition for one pulled character: the state after the
/// character, and what the character emits.
pub open spec fn step(font: FontView, st: LayoutState, c: char) -> (LayoutState, Option<
    Result<BuiltGlyphView, LookupError>,
>) {
    if c == '\n' {
        (
            LayoutState {
                caret: (spec_zero(), st.caret.1.spec_plus(font.layout.advance_y)),
                previous_char: st.previous_char,
                line: st.line + 1,
                index_in_line: 0,
            },
            None,
        )
    } else if is_control_char(c) {
        (st, None)
    } else {
        let x = kerned_x(font, st, c);
        if !font.glyphs.contains_key(c) {
            (
                LayoutState {
                    caret: (x, st.caret.1),
                    previous_char: Some(c),
                    line: st.line,
                    index_in_line: st.index_in_line,
                },
                lookup_failure(c),
            )
        } else {
            let glyph = font.glyphs[c];
            let advanced = LayoutState {
                caret: (x.spec_plus(glyph.advance_x), st.caret.1),
                previous_char: Some(c),
                line: st.line,
                index_in_line: st.index_in_line + 1,
            };
            match glyph.quad {
                Some(quad) => (
                    advanced,
                    Some(
                        Ok(
                            BuiltGlyphView {
                                character: c,
                                index_in_line: st.index_in_line,
                                line: st.line,
                                quad: GlyphQuad {
                                    geometry: quad.geometry.spec_translated((x, st.caret.1)),
                                    texture: quad.texture,
                                },
                            },
                        ),
                    ),
                ),
                None => (advanced, None),
            }
        }
    }
}

/// What one pull of the engine does from position `pos` in state `st`:
/// characters are consumed until one of them emits something or the input
/// is exhausted; the result is the position and state afterwards, and the
/// emission, if any.
pub open spec fn next_emission(font: FontView, chars: Seq<char>, pos: int, st: LayoutState) -> (
    int,
    LayoutState,
    Option<Result<BuiltGlyphView, LookupError>>,
)
    decreases chars.len() - pos,
{
    if pos < 0 || pos >= chars.len() {
        (pos, st, None)
    } else {
        let stepped = step(font, st, chars[pos]);
        if stepped.1 is Some {
            (pos + 1, stepped.0, stepped.1)
        } else {
            next_emission(font, chars, pos + 1, stepped.0)
        }
    }
}

/// Whether the produced value is exactly the emission the specification
/// asks for.
pub open spec fn emitted_matches(
    r: Option<Result<BuiltGlyph, LookupError>>,
    out: Option<Result<BuiltGlyphView, LookupError>>,
) -> bool {
    match (r, out) {
        (None, None) => true,
        (Some(Ok(g)), Some(Ok(v))) => g@ == v,
        (Some(Err(e)), Some(Err(v))) => e == v,
        _ => false,
    }
}

/// Whether `c` is a control character in the engine's classification
/// (the tab is not: it is displayable).
pub fn is_control(c: char) -> (r: bool)
    ensures
        r == is_control_char(c),
{
    let u = c as u32;
    c != '\t' && (u < 32 || (127 <= u && u <= 159))
}

/// The layout engine. It borrows the font for its whole lifetime, owns the
/// character sequence it consumes, and keeps O(1) state beyond them.
pub struct LayoutGlyphs<'f> {
    pub font: &'f Font,
    pub chars: Vec<char>,
    pub position: usize,
    pub caret: (Scalar, Scalar),
    pub previous_char: Option<char>,
    pub line: usize,
    pub index_in_line: usize,
}

impl<'f> LayoutGlyphs<'f> {
    /// The engine's bookkeeping state.
    pub open spec fn state(self) -> LayoutState {
        LayoutState {
            caret: self.caret,
            previous_char: self.previous_char,
            line: self.line as nat,
            index_in_line: self.index_in_line as nat,
        }
    }

    /// The consumed prefix never outruns the input, and the line and index
    /// counters stay far enough from the machine limit to be incremented
    /// once per remaining character.
    pub open spec fn wf(self) -> bool {
        &&& self.position <= self.chars@.len()
        &&& self.line + (self.chars@.len() - self.position) <= usize::MAX
        &&& self.index_in_line + (self.chars@.len() - self.position) <= usize::MAX
    }

    /// A fresh engine over `chars`, starting at the origin.
    pub fn new(font: &'f Font, chars: Vec<char>) -> (r: LayoutGlyphs<'f>)
        ensures
            r.font == font,
            r.chars@ == chars@,
            r.position == 0,
            r.state() == initial_layout_state(),
            r.wf(),
    {
        proof {
            assert(chars@.len() == chars.len());
        }
        LayoutGlyphs {
            font,
            chars,
            position: 0,
            caret: (zero(), zero()),
            previous_char: None,
            line: 0,
            index_in_line: 0,
        }
    }

    /// Pulls the next emission: `None` when the input is exhausted,
    /// otherwise the next placed glyph or the lookup failure for the next
    /// displayable character that the glyph table does not know. Exactly
    /// the characters up to and including the emitting one are consumed.
    pub fn next(&mut self) -> (r: Option<Result<BuiltGlyph, LookupError>>)
        requires
            old(self).wf(),
        ensures
            final(self).wf(),
            final(self).font == old(self).font,
            final(self).chars@ == old(self).chars@,
            ({
                let (end_position, end_state, out) = next_emission(
                    old(self).font@,
                    old(self).chars@,
                    old(self).position as int,
                    old(self).state(),
                );
                &&& final(self).position == end_position
                &&& final(self).state() == end_state
                &&& emitted_matches(r, out)
            }),
    {
        loop
            invariant
                self.wf(),
                self.font == old(self).font,
                self.chars@ == old(self).chars@,
                next_emission(self.font@, self.chars@, self.position as int, self.state())
                    == next_emission(
                    old(self).font@,
                    old(self).chars@,
                    old(self).position as int,
                    old(self).state(),
                ),
            decreases self.chars@.len() - self.position,
        {
            if self.position >= self.chars.len() {
                return None;
            }
            let ghost entry_state = self.state();
            let ghost entry_position = self.position as int;
            let c = self.chars[self.position];
            self.position = self.position + 1;
            if c == '\n' {
                self.caret.1 = self.caret.1.plus(self.font.layout.advance_y);
                self.caret.0 = zero();
                self.line = self.line + 1;
                self.index_in_line = 0;
                proof {
                    assert(self.state() == step(self.font@, entry_state, c).0);
                }
            } else if is_control(c) {
                // emits nothing, mutates nothing
            } else {
                if let Some(previous) = self.previous_char {
                    let adjustment = match self.font.kerning.get((previous, c)) {
                        Some(k) => k,
                        None => zero(),
                    };
                    self.caret.0 = self.caret.0.plus(adjustment);
                }
                self.previous_char = Some(c);
                proof {
                    assert(self.caret.0 == kerned_x(self.font@, entry_state, c));
                }
                match self.font.glyphs.get(c) {
                    None => {
                        proof {
                            assert(self.state() == step(self.font@, entry_state, c).0);
                        }
                        return Some(Err(LookupError { character: c }));
                    },
                    Some(glyph) => {
                        let current_caret = self.caret;
                        let current_index_in_line = self.index_in_line;
                        self.caret.0 = self.caret.0.plus(glyph.advance_x);
                        self.index_in_line = self.index_in_line + 1;
                        proof {
                            assert(self.state() == step(self.font@, entry_state, c).0);
                        }
                        if let Some(quad) = glyph.quad {
                            return Some(
                                Ok(
                                    BuiltGlyph {
                                        character: c,
                                        index_in_line: current_index_in_line,
                                        line: self.line,
                                        quad: GlyphQuad {
                                            geometry: quad.geometry.translated(current_caret),
                                            texture: quad.texture,
                                        },
                                    },
                                ),
                            );
                        }
                    },
                }
            }
        }
    }
}

impl Font {
    /// A fresh layout engine over `chars`, borrowing this font.
    pub fn layout_glyphs<'f>(&'f self, chars: Vec<char>) -> (r: LayoutGlyphs<'f>)
        ensures
            r.font == self,
            r.chars@ == chars@,
            r.position == 0,
            r.state() == initial_layout_state(),
            r.wf(),
    {
        LayoutGlyphs::new(self, chars)
    }
}

/// Law: a displayable character that the glyph table does not know is
/// reported as a lookup failure carrying that character; it is never
/// silently dropped, and it neither advances the index within the line nor
/// the line count.
pub proof fn lemma_missing_glyph_reported(font: FontView, st: LayoutState, c: char)
    requires
        c != '\n',
        !is_control_char(c),
        !font.glyphs.contains_key(c),
    ensures
        step(font, st, c).1 == lookup_failure(c),
        step(font, st, c).0.index_in_line == st.index_in_line,
        step(font, st, c).0.line == st.line,
{
}

/// Law: a line break emits nothing, moves the caret one line down, resets
/// the caret's x position and the index within the line, increments the
/// line count, and leaves the kerning memory (the previous character)
/// untouched.
pub proof fn lemma_line_break(font: FontView, st: LayoutState)
    ensures
        step(font, st, '\n').1 is None,
        step(font, st, '\n').0.caret.0 == spec_zero(),
        step(font, st, '\n').0.caret.1 == st.caret.1.spec_plus(font.layout.advance_y),
        step(font, st, '\n').0.line == st.line + 1,
        step(font, st, '\n').0.index_in_line == 0,
        step(font, st, '\n').0.previous_char == st.previous_char,
{
}

/// Law: a glyph with no visible quad emits nothing, yet advances the caret
/// by its advance (after kerning) and the index within the line by one.
pub proof fn lemma_invisible_glyph_advances(font: FontView, st: LayoutState, c: char)
    requires
        c != '\n',
        !is_control_char(c),
        font.glyphs.contains_key(c),
        font.glyphs[c].quad is None,
    ensures
        step(font, st, c).1 is None,
        step(font, st, c).0.caret.0 == kerned_x(font, st, c).spec_plus(font.glyphs[c].advance_x),
        step(font, st, c).0.index_in_line == st.index_in_line + 1,
        step(font, st, c).0.line == st.line,
{
}

/// Law: a glyph with a visible quad is emitted at the caret position
/// captured before the advance: its geometry is the stored rectangle
/// translated by that caret, its texture rectangle is unchanged, and it
/// carries the line and index at which it was placed; the caret then
/// advances by the glyph's advance.
pub proof fn lemma_visible_glyph_placed(font: FontView, st: LayoutState, c: char)
    requires
        c != '\n',
        !is_control_char(c),
        font.glyphs.contains_key(c),
        font.glyphs[c].quad is Some,
    ensures
        step(font, st, c).1 matches Some(Ok(g)) && {
            &&& g.character == c
            &&& g.index_in_line == st.index_in_line
            &&& g.line == st.line
            &&& g.quad.geometry == font.glyphs[c].quad->0.geometry.spec_translated(
                (kerned_x(font, st, c), st.caret.1),
            )
            &&& g.quad.texture == font.glyphs[c].quad->0.texture
        },
        step(font, st, c).0.caret.0 == kerned_x(font, st, c).spec_plus(font.glyphs[c].advance_x),
        step(font, st, c).0.index_in_line == st.index_in_line + 1,
{
}

} // verus!
