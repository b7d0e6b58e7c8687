//! The glyph atlas mapping: per character, a normalized texture rectangle
//! and a pixel size. The atlas texture itself is an opaque read-only asset
//! of the unverified shell; the core only ever reads this mapping, and a
//! missing character merely skips that glyph, never fails a frame.
//!
//! Texture coordinates are fixed-point, in millionths of the atlas extent.

use vstd::prelude::*;

verus! {

/// Where one character sits in the atlas: its normalized texture
/// rectangle in millionths of the atlas extent, and its pixel size.
#[derive(Clone, Copy, Debug, PartialEq, Eq, Structural)]
pub struct GlyphMetrics {
    pub u_min: u32,
    pub v_min: u32,
    pub u_max: u32,
    pub v_max: u32,
    pub width: u32,
    pub height: u32,
}

/// The mapping that a sequence of insertions denotes: a later entry for
/// the same character overrides an earlier one.
pub open spec fn entries_map(s: Seq<(char, GlyphMetrics)>) -> Map<char, GlyphMetrics>
    decreases s.len(),
{
    if s.len() == 0 {
        Map::empty()
    } else {
        entries_map(s.drop_last()).insert(s.last().0, s.last().1)
    }
}

/// The character-to-metrics mapping of a glyph atlas. Read-only after it
/// is built; lookups may miss.
pub struct GlyphAtlas {
    entries: Vec<(char, GlyphMetrics)>,
}

impl View for GlyphAtlas {
    type V = Map<char, GlyphMetrics>;

    closed spec fn view(&self) -> Map<char, GlyphMetrics> {
        entries_map(self.entries@)
    }
}

impl GlyphAtlas {
    /// An atlas with no characters mapped.
    pub fn new() -> (a: Self)
        ensures
            a@ == Map::<char, GlyphMetrics>::empty(),
    {
        GlyphAtlas { entries: Vec::new() }
    }

    /// Map a character to its metrics, replacing any earlier entry.
    pub fn insert(&mut self, c: char, m: GlyphMetrics)
        ensures
            final(self)@ == old(self)@.insert(c, m),
    {
        self.entries.push((c, m));
        proof {
            assert(self.entries@.drop_last() =~= old(self).entries@);
        }
    }

    /// Look a character up: its metrics, or nothing when the atlas does
    /// not hold it.
    pub fn get(&self, c: char) -> (r: Option<GlyphMetrics>)
        ensures
            r == if self@.contains_key(c) {
                Option::Some(self@[c])
            } else {
                Option::None::<GlyphMetrics>
            },
    {
        let n = self.entries.len();
        proof {
            assert(self.entries@.subrange(0, n as int) =~= self.entries@);
        }
        let mut j: usize = n;
        while j > 0
            invariant
                j <= n,
                n == self.entries@.len(),
                self@.contains_key(c) == entries_map(self.entries@.subrange(0, j as int)).contains_key(c),
                self@.contains_key(c) ==> self@[c] == entries_map(
                    self.entries@.subrange(0, j as int),
                )[c],
            decreases j,
        {
            proof {
                assert(self.entries@.subrange(0, j as int).drop_last() =~= self.entries@.subrange(
                    0,
                    j - 1,
                ));
            }
            let entry = self.entries[j - 1];
            if entry.0 == c {
                proof {
                    assert(entries_map(self.entries@.subrange(0, j as int)).contains_key(c));
                }
                return Option::Some(entry.1);
            }
            j = j - 1;
        }
        proof {
            assert(self.entries@.subrange(0, 0) =~= Seq::<(char, GlyphMetrics)>::empty());
        }
        Option::None
    }
}

} // verus!
