//! Fonts as tables of metrics, and glyphs scaled and placed.
//!
//! A font is held as the numbers that layout reads from it: vertical
//! metrics, one entry of horizontal metrics for each character it maps, and
//! its kerning pairs, all in font units. A run's scale says how many layout
//! units one font unit takes along each axis.

use crate::geometry::{clamp, sat_add, sat_sub, Point, Rect};
use vstd::prelude::*;

verus! {

/// Names a font by its place in the list of fonts that layout is given.
#[derive(Clone, Copy, Debug, PartialEq, Eq, Hash, Structural)]
pub struct FontId(pub usize);

/// Names a glyph within its font.
#[derive(Clone, Copy, Debug, PartialEq, Eq, Hash, Structural)]
pub struct GlyphId(pub u32);

/// Layout units per font unit, along each axis.
#[derive(Clone, Copy, Debug, PartialEq, Eq, Hash, Structural)]
pub struct Scale {
    pub x: u32,
    pub y: u32,
}

impl Scale {
    /// The same scale along both axes.
    pub fn uniform(s: u32) -> (r: Scale)
        ensures
            r == (Scale { x: s, y: s }),
    {
        Scale { x: s, y: s }
    }
}

/// Vertical metrics of a font at some scale: the distance from the baseline
/// up to the top of the line (`ascent`, positive), down to its bottom
/// (`descent`, negative), and the gap to the next line.
#[derive(Clone, Copy, Debug, PartialEq, Eq, Hash, Structural)]
pub struct VMetrics {
    pub ascent: i64,
    pub descent: i64,
    pub line_gap: i64,
}

/// The box that a glyph's outline fills, in font units, relative to the
/// glyph's origin on the baseline.
#[derive(Clone, Copy, Debug, PartialEq, Eq, Hash, Structural)]
pub struct BoundingBox {
    pub x_min: i32,
    pub y_min: i32,
    pub x_max: i32,
    pub y_max: i32,
}

/// Horizontal metrics of one glyph, in font units. A glyph that draws
/// nothing, such as a space, has no bounding box.
#[derive(Clone, Copy, Debug, PartialEq, Eq, Hash)]
pub struct GlyphMetrics {
    pub id: GlyphId,
    pub advance_width: i32,
    pub bounds: Option<BoundingBox>,
}

/// The glyph that a font maps a character to.
#[derive(Clone, Copy, Debug, PartialEq, Eq, Hash)]
pub struct GlyphEntry {
    pub character: char,
    pub metrics: GlyphMetrics,
}

/// An adjustment to the distance between two glyphs that stand side by side.
#[derive(Clone, Copy, Debug, PartialEq, Eq, Hash, Structural)]
pub struct KerningPair {
    pub left: GlyphId,
    pub right: GlyphId,
    pub adjustment: i32,
}

/// The metrics of a font, in font units.
#[derive(Clone, Debug, PartialEq, Eq, Hash)]
pub struct Font {
    pub ascent: i32,
    pub descent: i32,
    pub line_gap: i32,
    /// The glyph used for every character without an entry.
    pub missing: GlyphMetrics,
    /// Where a character has several entries, the first one counts.
    pub glyphs: Vec<GlyphEntry>,
    /// Where a pair has several entries, the first one counts.
    pub kerning: Vec<KerningPair>,
}

/// A glyph at a scale: its metrics in layout units.
#[derive(Clone, Copy, Debug, PartialEq, Eq, Hash)]
pub struct ScaledGlyph {
    pub id: GlyphId,
    pub scale: Scale,
    pub advance_width: i64,
    /// The box of the outline, relative to the glyph's origin.
    pub bounds: Option<Rect>,
}

/// A glyph with the place of its origin on the screen.
#[derive(Clone, Copy, Debug, PartialEq, Eq, Hash)]
pub struct PositionedGlyph {
    pub glyph: ScaledGlyph,
    pub position: Point,
}

/// A length of `v` font units at `s` layout units per font unit.
pub open spec fn scaled(v: i32, s: u32) -> i64 {
    (v * s) as i64
}

/// A length of `v` font units at `s` layout units per font unit. The product
/// of a 32-bit length and a 32-bit scale always fits.
pub fn scale_units(v: i32, s: u32) -> (r: i64)
    ensures
        r == v * s,
        r == scaled(v, s),
{
    assert(-0x8000_0000 * 0xffff_ffff <= v * s <= 0x7fff_ffff * 0xffff_ffff) by (nonlinear_arith)
        requires
            -0x8000_0000 <= v <= 0x7fff_ffff,
            0 <= s <= 0xffff_ffff,
    ;
    let wide_v: i64 = v as i64;
    let wide_s: i64 = s as i64;
    wide_v * wide_s
}

/// The first entry for `c` among `entries`, if there is one.
pub open spec fn find_glyph(entries: Seq<GlyphEntry>, c: char) -> Option<GlyphMetrics>
    decreases entries.len(),
{
    if entries.len() == 0 {
        None
    } else if entries[0].character == c {
        Some(entries[0].metrics)
    } else {
        find_glyph(entries.drop_first(), c)
    }
}

/// The adjustment of the first entry for the pair among `pairs`, or zero.
pub open spec fn find_kerning(pairs: Seq<KerningPair>, left: GlyphId, right: GlyphId) -> i32
    decreases pairs.len(),
{
    if pairs.len() == 0 {
        0
    } else if pairs[0].left == left && pairs[0].right == right {
        pairs[0].adjustment
    } else {
        find_kerning(pairs.drop_first(), left, right)
    }
}

impl BoundingBox {
    /// The box at `scale`, in layout units.
    pub open spec fn spec_scaled(self, scale: Scale) -> Rect {
        Rect {
            min: Point { x: scaled(self.x_min, scale.x), y: scaled(self.y_min, scale.y) },
            max: Point { x: scaled(self.x_max, scale.x), y: scaled(self.y_max, scale.y) },
        }
    }

    /// The box at `scale`, in layout units.
    pub fn scaled(&self, scale: Scale) -> (r: Rect)
        ensures
            r == self.spec_scaled(scale),
    {
        Rect {
            min: Point { x: scale_units(self.x_min, scale.x), y: scale_units(self.y_min, scale.y) },
            max: Point { x: scale_units(self.x_max, scale.x), y: scale_units(self.y_max, scale.y) },
        }
    }
}

impl GlyphMetrics {
    /// The glyph at `scale`.
    pub open spec fn spec_scaled(self, scale: Scale) -> ScaledGlyph {
        ScaledGlyph {
            id: self.id,
            scale,
            advance_width: scaled(self.advance_width, scale.x),
            bounds: match self.bounds {
                Some(b) => Some(b.spec_scaled(scale)),
                None => None,
            },
        }
    }

    /// The glyph at `scale`.
    pub fn scaled(&self, scale: Scale) -> (r: ScaledGlyph)
        ensures
            r == self.spec_scaled(scale),
    {
        let bounds = match &self.bounds {
            Some(b) => Some(b.scaled(scale)),
            None => None,
        };
        ScaledGlyph {
            id: self.id,
            scale,
            advance_width: scale_units(self.advance_width, scale.x),
            bounds,
        }
    }
}

impl Font {
    /// The glyph for `c`: its first entry, or the missing glyph.
    pub open spec fn spec_glyph(self, c: char) -> GlyphMetrics {
        match find_glyph(self.glyphs@, c) {
            Some(m) => m,
            None => self.missing,
        }
    }

    /// The kerning between two glyphs at `scale`.
    pub open spec fn spec_pair_kerning(self, scale: Scale, left: GlyphId, right: GlyphId) -> i64 {
        scaled(find_kerning(self.kerning@, left, right), scale.x)
    }

    /// The vertical metrics at `scale`.
    pub open spec fn spec_v_metrics(self, scale: Scale) -> VMetrics {
        VMetrics {
            ascent: scaled(self.ascent, scale.y),
            descent: scaled(self.descent, scale.y),
            line_gap: scaled(self.line_gap, scale.y),
        }
    }

    /// The glyph for `c`: its first entry, or the missing glyph.
    pub fn glyph(&self, c: char) -> (r: GlyphMetrics)
        ensures
            r == self.spec_glyph(c),
    {
        let mut i: usize = 0;
        assert(self.glyphs@.skip(0) == self.glyphs@);
        while i < self.glyphs.len()
            invariant
                i <= self.glyphs.len(),
                find_glyph(self.glyphs@, c) == find_glyph(self.glyphs@.skip(i as int), c),
            decreases self.glyphs.len() - i,
        {
            if self.glyphs[i].character == c {
                return self.glyphs[i].metrics;
            }
            assert(self.glyphs@.skip(i as int).drop_first() == self.glyphs@.skip(i + 1));
            i += 1;
        }
        self.missing
    }

    /// The kerning between two glyphs at `scale`.
    pub fn pair_kerning(&self, scale: Scale, left: GlyphId, right: GlyphId) -> (r: i64)
        ensures
            r == self.spec_pair_kerning(scale, left, right),
    {
        let mut i: usize = 0;
        assert(self.kerning@.skip(0) == self.kerning@);
        while i < self.kerning.len()
            invariant
                i <= self.kerning.len(),
                find_kerning(self.kerning@, left, right) == find_kerning(
                    self.kerning@.skip(i as int),
                    left,
                    right,
                ),
            decreases self.kerning.len() - i,
        {
            let pair = &self.kerning[i];
            if pair.left.0 == left.0 && pair.right.0 == right.0 {
                return scale_units(pair.adjustment, scale.x);
            }
            assert(self.kerning@.skip(i as int).drop_first() == self.kerning@.skip(i + 1));
            i += 1;
        }
        scale_units(0, scale.x)
    }

    /// The vertical metrics at `scale`.
    pub fn v_metrics(&self, scale: Scale) -> (r: VMetrics)
        ensures
            r == self.spec_v_metrics(scale),
    {
        VMetrics {
            ascent: scale_units(self.ascent, scale.y),
            descent: scale_units(self.descent, scale.y),
            line_gap: scale_units(self.line_gap, scale.y),
        }
    }
}

impl VMetrics {
    /// The distance from one baseline to the next.
    pub open spec fn spec_line_height(self) -> i64 {
        clamp(clamp(self.ascent - self.descent) + self.line_gap)
    }

    /// The distance from one baseline to the next.
    pub fn line_height(&self) -> (r: i64)
        ensures
            r == self.spec_line_height(),
    {
        sat_add(sat_sub(self.ascent, self.descent), self.line_gap)
    }
}

impl PositionedGlyph {
    /// The box that the glyph fills on the screen, if it draws anything.
    pub open spec fn spec_pixel_bounding_box(self) -> Option<Rect> {
        match self.glyph.bounds {
            Some(b) => Some(b.spec_offset(self.position)),
            None => None,
        }
    }

    /// The box that the glyph fills on the screen, if it draws anything.
    pub fn pixel_bounding_box(&self) -> (r: Option<Rect>)
        ensures
            r == self.spec_pixel_bounding_box(),
    {
        match self.glyph.bounds {
            Some(b) => Some(b.offset(self.position)),
            None => None,
        }
    }
}

} // verus!
