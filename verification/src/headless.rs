//! A brush that lays sections out and keeps what it has laid out.
//!
//! The layout of a section is kept under a key made from the section and its
//! layout. Asking again for an equal section finds it there. The brush keeps
//! no more layouts than it was built for: the one that was asked for longest
//! ago leaves first.

use crate::cache::{
    after_query, cache_back, cache_get_refresh, cache_insert, cache_keys, cache_len, cache_new,
    cache_pop_front, cached, has_key, index_of, law_query_bounded, limit_of, GlyphedSection,
    GlyphedSectionView,
};
use crate::font::{Font, FontId, PositionedGlyph};
use crate::geometry::Rect;
use crate::key::{hash_section, layout_key};
use crate::layout::GlyphPositioner;
use crate::section::{Color, SectionGlyphInfo, VariedSection, VariedSectionView};
use linked_hash_map::LinkedHashMap;
use vstd::prelude::*;

verus! {

/// The smallest rectangle that holds the box of each of the first `n` of
/// `glyphs` that draws anything; `None` if none of them does.
pub open spec fn pixel_hull(glyphs: Seq<(PositionedGlyph, Color, FontId)>, n: int) -> Option<Rect>
    decreases n,
{
    if n <= 0 {
        None
    } else {
        let before = pixel_hull(glyphs, n - 1);
        match glyphs[n - 1].0.spec_pixel_bounding_box() {
            None => before,
            Some(b) => match before {
                None => Some(b),
                Some(hull) => Some(hull.spec_union(b)),
            },
        }
    }
}

/// The glyphs of `placed`, without colour and font.
pub open spec fn glyphs_of(placed: Seq<(PositionedGlyph, Color, FontId)>) -> Seq<PositionedGlyph> {
    Seq::new(placed.len(), |i: int| placed[i].0)
}

/// The smallest rectangle that holds the box of every glyph that draws
/// anything; `None` if none does.
pub fn bounding_box(glyphs: &Vec<(PositionedGlyph, Color, FontId)>) -> (r: Option<Rect>)
    ensures
        r == pixel_hull(glyphs@, glyphs@.len() as int),
{
    let mut hull: Option<Rect> = None;
    let mut i: usize = 0;
    while i < glyphs.len()
        invariant
            i <= glyphs.len(),
            hull == pixel_hull(glyphs@, i as int),
        decreases glyphs.len() - i,
    {
        match glyphs[i].0.pixel_bounding_box() {
            None => {},
            Some(b) => {
                hull = match hull {
                    None => Some(b),
                    Some(h) => Some(h.union(b)),
                };
            },
        }
        i += 1;
    }
    hull
}

/// The hull of the first `n` glyphs is there if and only if one of them
/// draws something. It holds the box of each glyph that draws, and each of its
/// four sides is a side of one of those boxes: no smaller rectangle holds
/// them all.
pub proof fn law_hull_is_tight(glyphs: Seq<(PositionedGlyph, Color, FontId)>, n: int)
    requires
        0 <= n <= glyphs.len(),
    ensures
        pixel_hull(glyphs, n).is_none() <==> forall|i: int|
            0 <= i < n ==> (#[trigger] glyphs[i]).0.spec_pixel_bounding_box().is_none(),
        pixel_hull(glyphs, n).is_some() ==> {
            let hull = pixel_hull(glyphs, n).unwrap();
            &&& forall|i: int|
                0 <= i < n && (#[trigger] glyphs[i]).0.spec_pixel_bounding_box().is_some()
                    ==> hull.holds(glyphs[i].0.spec_pixel_bounding_box().unwrap())
            &&& exists|i: int|
                0 <= i < n && (#[trigger] glyphs[i]).0.spec_pixel_bounding_box().is_some()
                    && glyphs[i].0.spec_pixel_bounding_box().unwrap().min.x == hull.min.x
            &&& exists|i: int|
                0 <= i < n && (#[trigger] glyphs[i]).0.spec_pixel_bounding_box().is_some()
                    && glyphs[i].0.spec_pixel_bounding_box().unwrap().min.y == hull.min.y
            &&& exists|i: int|
                0 <= i < n && (#[trigger] glyphs[i]).0.spec_pixel_bounding_box().is_some()
                    && glyphs[i].0.spec_pixel_bounding_box().unwrap().max.x == hull.max.x
            &&& exists|i: int|
                0 <= i < n && (#[trigger] glyphs[i]).0.spec_pixel_bounding_box().is_some()
                    && glyphs[i].0.spec_pixel_bounding_box().unwrap().max.y == hull.max.y
        },
    decreases n,
{
    if n > 0 {
        law_hull_is_tight(glyphs, n - 1);
    }
}

/// Lays sections out with the fonts it was built with, and keeps the
/// layouts. It can tell where glyphs go and how much room they take; it draws
/// nothing.
pub struct HeadlessGlyphBrush {
    fonts: Vec<Font>,
    calculate_glyph_cache: LinkedHashMap<u64, GlyphedSection>,
    glyph_positioning_cache_size: usize,
}

impl HeadlessGlyphBrush {
    /// The fonts of the brush; `FontId(i)` names the font at index `i`.
    pub closed spec fn fonts(&self) -> Seq<Font> {
        self.fonts@
    }

    /// The layouts that the brush keeps, oldest first.
    pub closed spec fn entries(&self) -> Seq<(u64, GlyphedSectionView)> {
        cached(self.calculate_glyph_cache)
    }

    /// The number of layouts that the brush was built to keep.
    pub closed spec fn cache_size(&self) -> usize {
        self.glyph_positioning_cache_size
    }

    /// What laying `section` out with `layout` gives, to be kept.
    pub open spec fn fresh<L: GlyphPositioner>(
        &self,
        section: VariedSectionView,
        layout: L,
    ) -> GlyphedSectionView {
        GlyphedSectionView {
            bounds: layout.bounds(section.glyph_info()),
            glyphs: layout.glyphs(self.fonts(), section.glyph_info()),
            z: section.z,
        }
    }

    /// The layout that the brush hands out for `section` laid out by
    /// `layout`: the one that it keeps under the section's key, or, if it
    /// keeps none, what laying the section out gives. Where two sections
    /// share a key, the second is handed the layout of the first.
    pub open spec fn kept_for<L: GlyphPositioner>(
        &self,
        section: VariedSectionView,
        layout: L,
    ) -> GlyphedSectionView {
        let key = layout_key(section, layout);
        if has_key(self.entries(), key) {
            self.entries()[index_of(self.entries(), key)].1
        } else {
            self.fresh(section, layout)
        }
    }

    /// The entries after `section` was asked for with `layout`.
    pub open spec fn queried<L: GlyphPositioner>(
        &self,
        section: VariedSectionView,
        layout: L,
    ) -> Seq<(u64, GlyphedSectionView)> {
        after_query(
            self.entries(),
            layout_key(section, layout),
            self.fresh(section, layout),
            self.cache_size(),
        )
    }

    /// Makes sure that the layout of the section is kept, and gives its key.
    /// A layout that is kept under the key already is not made again; it
    /// becomes the latest. The brush must have the font of every run.
    pub fn cache_glyphs<L: GlyphPositioner>(&mut self, section: &VariedSection, layout: &L) -> (key:
        u64)
        requires
            section@.glyph_info().fonts_known(old(self).fonts()),
        ensures
            key == layout_key(section@, *layout),
            final(self).entries() == old(self).queried(section@, *layout),
            final(self).entries().len() > 0,
            final(self).entries().last() == (key, old(self).kept_for(section@, *layout)),
            final(self).fonts() == old(self).fonts(),
            final(self).cache_size() == old(self).cache_size(),
    {
        let section_hash = hash_section(section, layout);
        let ghost before = self.entries();
        if !cache_get_refresh(&mut self.calculate_glyph_cache, section_hash) {
            let info = SectionGlyphInfo::from(section);
            let bounds = layout.bounds_rect(&info);
            let glyphs = layout.calculate_glyphs(&self.fonts, &info);
            cache_insert(
                &mut self.calculate_glyph_cache,
                section_hash,
                GlyphedSection { bounds, glyphs, z: section.z },
            );
        }
        let ghost touched = self.entries();
        proof {
            law_query_bounded(
                before,
                section_hash,
                self.fresh(section@, *layout),
                self.glyph_positioning_cache_size,
            );
        }
        let limit: usize = if self.glyph_positioning_cache_size == 0 {
            1
        } else {
            self.glyph_positioning_cache_size
        };
        let ghost mut gone: int = 0;
        while cache_len(&self.calculate_glyph_cache) > limit
            invariant
                limit == limit_of(self.glyph_positioning_cache_size),
                0 <= gone <= touched.len(),
                gone > 0 ==> touched.len() - gone >= limit,
                cached(self.calculate_glyph_cache) == touched.skip(gone),
                self.fonts@ == old(self).fonts@,
                self.glyph_positioning_cache_size == old(self).glyph_positioning_cache_size,
            decreases touched.len() - gone,
        {
            cache_pop_front(&mut self.calculate_glyph_cache);
            proof {
                gone = gone + 1;
            }
        }
        section_hash
    }

    /// The glyphs of the section on the screen, laid out by `custom_layout`,
    /// in the order of the text. The brush must have the font of every run.
    pub fn glyphs_custom_layout<L: GlyphPositioner>(
        &mut self,
        section: &VariedSection,
        custom_layout: &L,
    ) -> (r: Vec<PositionedGlyph>)
        requires
            section@.glyph_info().fonts_known(old(self).fonts()),
        ensures
            final(self).entries() == old(self).queried(section@, *custom_layout),
            final(self).fonts() == old(self).fonts(),
            final(self).cache_size() == old(self).cache_size(),
            r@ == glyphs_of(old(self).kept_for(section@, *custom_layout).glyphs),
    {
        self.cache_glyphs(section, custom_layout);
        let mut out: Vec<PositionedGlyph> = Vec::new();
        match cache_back(&self.calculate_glyph_cache) {
            None => {},
            Some(kept) => {
                let mut i: usize = 0;
                while i < kept.glyphs.len()
                    invariant
                        i <= kept.glyphs.len(),
                        out@ == glyphs_of(kept.glyphs@).take(i as int),
                    decreases kept.glyphs.len() - i,
                {
                    out.push(kept.glyphs[i].0);
                    i += 1;
                }
            },
        }
        out
    }

    /// The glyphs of the section on the screen, laid out by the section's
    /// own layout.
    pub fn glyphs(&mut self, section: &VariedSection) -> (r: Vec<PositionedGlyph>)
        requires
            section@.glyph_info().fonts_known(old(self).fonts()),
        ensures
            final(self).entries() == old(self).queried(section@, section@.layout),
            final(self).fonts() == old(self).fonts(),
            final(self).cache_size() == old(self).cache_size(),
            r@ == glyphs_of(old(self).kept_for(section@, section@.layout).glyphs),
    {
        let layout = section.layout;
        self.glyphs_custom_layout(section, &layout)
    }

    /// The smallest rectangle that holds every glyph of the section, laid
    /// out by `custom_layout`; `None` if the section draws nothing.
    pub fn pixel_bounds_custom_layout<L: GlyphPositioner>(
        &mut self,
        section: &VariedSection,
        custom_layout: &L,
    ) -> (r: Option<Rect>)
        requires
            section@.glyph_info().fonts_known(old(self).fonts()),
        ensures
            final(self).entries() == old(self).queried(section@, *custom_layout),
            final(self).fonts() == old(self).fonts(),
            final(self).cache_size() == old(self).cache_size(),
            r == ({
                let kept = old(self).kept_for(section@, *custom_layout);
                pixel_hull(kept.glyphs, kept.glyphs.len() as int)
            }),
    {
        self.cache_glyphs(section, custom_layout);
        match cache_back(&self.calculate_glyph_cache) {
            None => None,
            Some(kept) => bounding_box(&kept.glyphs),
        }
    }

    /// The smallest rectangle that holds every glyph of the section, laid
    /// out by the section's own layout; `None` if the section draws nothing.
    pub fn pixel_bounds(&mut self, section: &VariedSection) -> (r: Option<Rect>)
        requires
            section@.glyph_info().fonts_known(old(self).fonts()),
        ensures
            final(self).entries() == old(self).queried(section@, section@.layout),
            final(self).fonts() == old(self).fonts(),
            final(self).cache_size() == old(self).cache_size(),
            r == ({
                let kept = old(self).kept_for(section@, section@.layout);
                pixel_hull(kept.glyphs, kept.glyphs.len() as int)
            }),
    {
        let layout = section.layout;
        self.pixel_bounds_custom_layout(section, &layout)
    }

    /// The keys of the layouts that the brush keeps, oldest first.
    pub fn cached_keys(&self) -> (keys: Vec<u64>)
        ensures
            keys@ == Seq::new(self.entries().len(), |i: int| self.entries()[i].0),
    {
        cache_keys(&self.calculate_glyph_cache)
    }

    /// The number of fonts of the brush.
    pub fn font_count(&self) -> (n: usize)
        ensures
            n == self.fonts().len(),
    {
        self.fonts.len()
    }
}

/// Laying out is a function of what is laid out: two sections that hold the
/// same, laid out by the same layout with the same fonts, give the same
/// glyphs, the same bounds and the same key.
pub proof fn law_same_section_same_layout<L: GlyphPositioner>(
    layout: L,
    fonts: Seq<Font>,
    a: VariedSection,
    b: VariedSection,
)
    requires
        a@ == b@,
    ensures
        layout.glyphs(fonts, a@.glyph_info()) == layout.glyphs(fonts, b@.glyph_info()),
        layout.bounds(a@.glyph_info()) == layout.bounds(b@.glyph_info()),
        layout_key(a@, layout) == layout_key(b@, layout),
{
}

/// Collects the fonts and the settings of a brush.
pub struct HeadlessGlyphBrushBuilder {
    font_data: Vec<Font>,
    glyph_positioning_cache_size: usize,
}

impl HeadlessGlyphBrushBuilder {
    /// The fonts collected so far; `FontId(i)` names the font at index `i`.
    pub closed spec fn fonts(&self) -> Seq<Font> {
        self.font_data@
    }

    /// The number of layouts that the brush will keep.
    pub closed spec fn cache_size(&self) -> usize {
        self.glyph_positioning_cache_size
    }

    /// A builder with `font_0_data` as the font that `FontId(0)` names, for a
    /// brush that keeps 50 layouts.
    pub fn using_font(font_0_data: Font) -> (r: Self)
        ensures
            r.fonts() == seq![font_0_data],
            r.cache_size() == 50,
    {
        let mut font_data: Vec<Font> = Vec::new();
        font_data.push(font_0_data);
        HeadlessGlyphBrushBuilder { font_data, glyph_positioning_cache_size: 50 }
    }

    /// Adds a font, and gives the id that names it.
    pub fn add_font(&mut self, font_data: Font) -> (id: FontId)
        ensures
            final(self).fonts() == old(self).fonts().push(font_data),
            final(self).cache_size() == old(self).cache_size(),
            id.0 == old(self).fonts().len(),
    {
        self.font_data.push(font_data);
        FontId(self.font_data.len() - 1)
    }

    /// Sets the number of layouts that the brush keeps. Past that number the
    /// layout that was asked for longest ago leaves.
    pub fn glyph_positioning_cache_size(self, entries: usize) -> (r: Self)
        ensures
            r.fonts() == self.fonts(),
            r.cache_size() == entries,
    {
        HeadlessGlyphBrushBuilder {
            font_data: self.font_data,
            glyph_positioning_cache_size: entries,
        }
    }

    /// The brush, with the fonts collected and no layout kept yet.
    pub fn build(self) -> (r: HeadlessGlyphBrush)
        ensures
            r.fonts() == self.fonts(),
            r.cache_size() == self.cache_size(),
            r.entries().len() == 0,
    {
        HeadlessGlyphBrush {
            fonts: self.font_data,
            calculate_glyph_cache: cache_new(),
            glyph_positioning_cache_size: self.glyph_positioning_cache_size,
        }
    }
}

} // verus!
