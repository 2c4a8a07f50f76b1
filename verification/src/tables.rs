//! The two lookup tables of a font: glyph metrics keyed by character and
//! kerning adjustments keyed by ordered character pairs.
//!
//! Both are backed by `hashbrown` hash maps. Verus does not read the maps;
//! each table's contents are named by an uninterpreted function
//! ([`glyph_entries`], [`kern_entries`]) and every operation the library
//! needs is a small trusted wrapper whose contract speaks over that name.

use vstd::prelude::*;
use crate::scalar::Scalar;
use crate::font::GlyphLayout;

verus! {

/// The map that a list of key-value pairs rebuilds, inserting in order, so
/// that a later entry with a duplicate key overwrites an earlier one.
pub open spec fn assoc_map<K, V>(s: Seq<(K, V)>) -> Map<K, V>
    decreases s.len(),
{
    if s.len() == 0 {
        Map::empty()
    } else {
        assoc_map(s.drop_last()).insert(s.last().0, s.last().1)
    }
}

/// The keys of a list of key-value pairs, in order.
pub open spec fn first_components<K, V>(s: Seq<(K, V)>) -> Seq<K> {
    s.map_values(|p: (K, V)| p.0)
}

/// Per-character glyph metrics, keyed by character.
#[verifier::external_body]
pub struct GlyphTable {
    map: hashbrown::HashMap<char, GlyphLayout>,
}

/// The entries a glyph table holds.
pub uninterp spec fn glyph_entries(t: GlyphTable) -> Map<char, GlyphLayout>;

/// The empty glyph map.
pub open spec fn no_glyph_entries() -> Map<char, GlyphLayout> {
    Map::<char, GlyphLayout>::empty()
}

impl GlyphTable {
    /// Relies on `hashbrown::HashMap::new`: the new map is empty.
    #[verifier::external_body]
    pub fn new() -> (r: GlyphTable)
        ensures
            glyph_entries(r) == no_glyph_entries(),
    {
        GlyphTable { map: hashbrown::HashMap::new() }
    }

    /// Relies on `hashbrown::HashMap::insert`: the entry for `key` is added
    /// or replaced, and no other entry changes.
    #[verifier::external_body]
    pub fn insert(&mut self, key: char, value: GlyphLayout)
        ensures
            glyph_entries(*final(self)) == glyph_entries(*old(self)).insert(key, value),
    {
        self.map.insert(key, value);
    }

    /// Relies on `hashbrown::HashMap::get`: the entry stored under `key`,
    /// if there is one.
    #[verifier::external_body]
    pub fn get(&self, key: char) -> (r: Option<GlyphLayout>)
        ensures
            r == (if glyph_entries(*self).contains_key(key) {
                Some(glyph_entries(*self)[key])
            } else {
                None::<GlyphLayout>
            }),
    {
        self.map.get(&key).copied()
    }

    /// Relies on `hashbrown::HashMap::iter`: every entry is yielded exactly
    /// once, in no promised order.
    #[verifier::external_body]
    pub fn entries(&self) -> (r: Vec<(char, GlyphLayout)>)
        ensures
            first_components(r@).no_duplicates(),
            assoc_map(r@) == glyph_entries(*self),
    {
        self.map.iter().map(|(k, v)| (*k, *v)).collect()
    }
}

/// Kerning adjustments, keyed by an ordered pair of characters: the
/// adjustment applies when the second character follows the first.
#[verifier::external_body]
pub struct KerningTable {
    map: hashbrown::HashMap<(char, char), Scalar>,
}

/// The entries a kerning table holds.
pub uninterp spec fn kern_entries(t: KerningTable) -> Map<(char, char), Scalar>;

/// The empty kerning map.
pub open spec fn no_kern_entries() -> Map<(char, char), Scalar> {
    Map::<(char, char), Scalar>::empty()
}

impl KerningTable {
    /// Relies on `hashbrown::HashMap::new`: the new map is empty.
    #[verifier::external_body]
    pub fn new() -> (r: KerningTable)
        ensures
            kern_entries(r) == no_kern_entries(),
    {
        KerningTable { map: hashbrown::HashMap::new() }
    }

    /// Relies on `hashbrown::HashMap::insert`: the entry for `key` is added
    /// or replaced, and no other entry changes.
    #[verifier::external_body]
    pub fn insert(&mut self, key: (char, char), value: Scalar)
        ensures
            kern_entries(*final(self)) == kern_entries(*old(self)).insert(key, value),
    {
        self.map.insert(key, value);
    }

    /// Relies on `hashbrown::HashMap::get`: the entry stored under `key`,
    /// if there is one.
    #[verifier::external_body]
    pub fn get(&self, key: (char, char)) -> (r: Option<Scalar>)
        ensures
            r == (if kern_entries(*self).contains_key(key) {
                Some(kern_entries(*self)[key])
            } else {
                None::<Scalar>
            }),
    {
        self.map.get(&key).copied()
    }

    /// Relies on `hashbrown::HashMap::iter`: every entry is yielded exactly
    /// once, in no promised order.
    #[verifier::external_body]
    pub fn entries(&self) -> (r: Vec<((char, char), Scalar)>)
        ensures
            first_components(r@).no_duplicates(),
            assoc_map(r@) == kern_entries(*self),
    {
        self.map.iter().map(|(k, v)| (*k, *v)).collect()
    }
}

} // verus!
