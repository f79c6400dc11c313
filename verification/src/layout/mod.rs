//! Layouts: how words are put on lines and lines on the screen.

pub mod line;
pub mod lines;
pub mod words;

use crate::font::{Font, FontId, PositionedGlyph, VMetrics};
use crate::geometry::{clamp, half, inside, sat_add, sat_sub, Bounds, Point, Rect};
use crate::layout::line::{page, page_glyphs, single_line, single_line_glyphs};
use crate::layout::lines::{
    aligned, first_line, lemma_line_baseline, lemma_line_edges, lemma_line_len_bounds, line_len,
    line_of, line_start,
};
use crate::layout::words::{
    lemma_words_well_placed, section_characters, words_of, WordView, Words,
};
use crate::linebreak::{BuiltInLineBreaker, LineBreaker};
use crate::section::{Color, SectionGlyphInfo, SectionView};
use std::collections::hash_map::DefaultHasher;
use std::hash::Hasher;
use vstd::prelude::*;

verus! {

/// Where a line stands relative to the screen position, left to right.
#[derive(Debug, Clone, Copy, PartialEq, Eq, Hash, Structural)]
pub enum HorizontalAlign {
    /// The line starts at the screen position and runs to the right.
    Left,
    /// The line has the screen position in its middle.
    Center,
    /// The line ends at the screen position.
    Right,
}

/// Where the text stands relative to the screen position, top to bottom.
#[derive(Debug, Clone, Copy, PartialEq, Eq, Hash, Structural)]
pub enum VerticalAlign {
    /// The text starts under the screen position and runs downwards.
    Top,
}

/// The layouts that come with the library, each with the strategy that finds
/// its line breaks. Bounds without room, with no width or no height, take no
/// glyph at all.
#[derive(Debug, Clone, Copy, Hash, PartialEq, Eq)]
pub enum Layout<L: LineBreaker> {
    /// One line, left to right. It ends at a hard break or where the next
    /// word would pass the width bound; what follows is left out.
    SingleLine { line_breaker: L, h_align: HorizontalAlign, v_align: VerticalAlign },
    /// Lines one under the other. A new line starts after a hard break and
    /// where the next word would pass the width bound.
    Wrap { line_breaker: L, h_align: HorizontalAlign, v_align: VerticalAlign },
}

impl<L: LineBreaker> Layout<L> {
    /// The horizontal alignment of the layout.
    pub open spec fn spec_h_align(self) -> HorizontalAlign {
        match self {
            Layout::SingleLine { h_align, .. } => h_align,
            Layout::Wrap { h_align, .. } => h_align,
        }
    }

    /// The vertical alignment of the layout.
    pub open spec fn spec_v_align(self) -> VerticalAlign {
        match self {
            Layout::SingleLine { v_align, .. } => v_align,
            Layout::Wrap { v_align, .. } => v_align,
        }
    }

    /// The strategy that finds the layout's line breaks.
    pub open spec fn spec_line_breaker(self) -> L {
        match self {
            Layout::SingleLine { line_breaker, .. } => line_breaker,
            Layout::Wrap { line_breaker, .. } => line_breaker,
        }
    }

    /// The same layout with `h_align` as its horizontal alignment.
    pub fn h_align(self, h_align: HorizontalAlign) -> (r: Self)
        ensures
            r.spec_h_align() == h_align,
            r.spec_v_align() == self.spec_v_align(),
            r.spec_line_breaker() == self.spec_line_breaker(),
            r is SingleLine <==> self is SingleLine,
    {
        match self {
            Layout::SingleLine { line_breaker, v_align, .. } => Layout::SingleLine {
                line_breaker,
                v_align,
                h_align,
            },
            Layout::Wrap { line_breaker, v_align, .. } => Layout::Wrap {
                line_breaker,
                v_align,
                h_align,
            },
        }
    }

    /// The same layout with `v_align` as its vertical alignment. With the
    /// one alignment there is, the layout comes back as it was.
    pub fn v_align(self, v_align: VerticalAlign) -> (r: Self)
        ensures
            r == self,
    {
        match v_align {
            VerticalAlign::Top => self,
        }
    }

    /// The same layout with `line_breaker` as its strategy.
    pub fn line_breaker<L2: LineBreaker>(self, line_breaker: L2) -> (r: Layout<L2>)
        ensures
            r.spec_line_breaker() == line_breaker,
            r.spec_h_align() == self.spec_h_align(),
            r.spec_v_align() == self.spec_v_align(),
            r is SingleLine <==> self is SingleLine,
    {
        match self {
            Layout::SingleLine { h_align, v_align, .. } => Layout::SingleLine {
                line_breaker,
                v_align,
                h_align,
            },
            Layout::Wrap { h_align, v_align, .. } => Layout::Wrap {
                line_breaker,
                v_align,
                h_align,
            },
        }
    }
}

impl Layout<BuiltInLineBreaker> {
    /// A single line, aligned left and top, with the standard line breaks.
    pub fn default_single_line() -> (r: Self)
        ensures
            r == (Layout::SingleLine {
                line_breaker: BuiltInLineBreaker::StandardLineBreaker,
                h_align: HorizontalAlign::Left,
                v_align: VerticalAlign::Top,
            }),
    {
        Layout::SingleLine {
            line_breaker: BuiltInLineBreaker::default(),
            h_align: HorizontalAlign::Left,
            v_align: VerticalAlign::Top,
        }
    }

    /// Wrapped lines, aligned left and top, with the standard line breaks.
    pub fn default_wrap() -> (r: Self)
        ensures
            r == (Layout::Wrap {
                line_breaker: BuiltInLineBreaker::StandardLineBreaker,
                h_align: HorizontalAlign::Left,
                v_align: VerticalAlign::Top,
            }),
    {
        Layout::Wrap {
            line_breaker: BuiltInLineBreaker::default(),
            h_align: HorizontalAlign::Left,
            v_align: VerticalAlign::Top,
        }
    }
}

impl Default for Layout<BuiltInLineBreaker> {
    fn default() -> (r: Self)
        ensures
            r == (Layout::Wrap {
                line_breaker: BuiltInLineBreaker::StandardLineBreaker,
                h_align: HorizontalAlign::Left,
                v_align: VerticalAlign::Top,
            }),
    {
        Layout::default_wrap()
    }
}

/// The rectangle that the bounds of a section mark out around its screen
/// position, from the position, the bounds and the horizontal alignment
/// alone. It tells quickly, without any layout, which part of the screen a
/// section is anchored to.
///
/// Left: the position is the top left corner, and the rectangle runs to the
/// right and down. Center: the position is the middle of the top edge, and the
/// rectangle runs half the width to either side, and down. Right: the
/// position is the bottom right corner, where the rectangle ends, and the
/// rectangle runs to the left and up.
///
/// The glyphs of a section start under the screen position, whatever the
/// alignment. The rectangle of a right-aligned section therefore bounds the
/// anchor of the text and not its glyphs: ask a brush for the pixel bounds
/// where the room that the glyphs take is wanted.
pub open spec fn aligned_bounds(
    h_align: HorizontalAlign,
    screen_position: Point,
    bounds: Bounds,
) -> Rect {
    let screen_x = screen_position.x;
    let screen_y = screen_position.y;
    let bound_w = bounds.width;
    let bound_h = bounds.height;
    let bottom = clamp(screen_y + bound_h);
    match h_align {
        HorizontalAlign::Left => Rect {
            min: Point { x: screen_x, y: screen_y },
            max: Point { x: clamp(screen_x + bound_w), y: bottom },
        },
        HorizontalAlign::Center => Rect {
            min: Point { x: clamp(screen_x - bound_w / 2), y: screen_y },
            max: Point { x: clamp(screen_x + bound_w / 2), y: bottom },
        },
        HorizontalAlign::Right => Rect {
            min: Point { x: clamp(screen_x - bound_w), y: clamp(screen_y - bound_h) },
            max: Point { x: screen_x, y: screen_y },
        },
    }
}

/// What a layout has left out, for a positioner that hands the rest of a
/// section on: where the caret stood, the section with its cursor at the
/// text that is left, and the vertical metrics of the line that ended. The
/// layouts of this library leave text out without handing it on.
#[derive(Debug, Clone)]
pub enum LayoutLeftover<'a> {
    /// The text after a hard break.
    HardBreak(Point, SectionGlyphInfo<'a>, VMetrics),
    /// The text that would reach past the width bound.
    OutOfWidthBound(Point, SectionGlyphInfo<'a>, VMetrics),
    /// The text that would lie below the height bound.
    OutOfHeightBound(Point, SectionGlyphInfo<'a>, VMetrics),
}

/// The words of what is still to lay out of `section`.
pub open spec fn section_words<L: LineBreaker>(
    fonts: Seq<Font>,
    line_breaker: L,
    section: SectionView,
) -> Seq<WordView> {
    words_of(section_characters(fonts, line_breaker, section.text, section.text_index as int))
}

/// Something that places the glyphs of a section. Equal sections give equal
/// glyphs, so that a result may be kept and used again.
pub trait GlyphPositioner {
    /// The glyphs of `section` on the screen, in the order of the text.
    spec fn glyphs(&self, fonts: Seq<Font>, section: SectionView) -> Seq<
        (PositionedGlyph, Color, FontId),
    >;

    /// The rectangle that the bounds of `section` mark out around its screen
    /// position.
    spec fn bounds(&self, section: SectionView) -> Rect;

    /// What the positioner adds to a key under which a result is kept.
    spec fn key_bytes(&self) -> Seq<Seq<u8>>;

    /// The glyphs of the section on the screen, in the order of the text.
    /// `fonts` must hold the font of every run.
    fn calculate_glyphs(&self, fonts: &Vec<Font>, section: &SectionGlyphInfo) -> (r: Vec<
        (PositionedGlyph, Color, FontId),
    >)
        requires
            section@.fonts_known(fonts@),
        ensures
            r@ == self.glyphs(fonts@, section@),
    ;

    /// The rectangle that the bounds of the section mark out around its
    /// screen position, found without laying the section out.
    fn bounds_rect(&self, section: &SectionGlyphInfo) -> (r: Rect)
        ensures
            r == self.bounds(section@),
    ;

    /// Feeds `state` what tells this positioner apart from others.
    fn write_key(&self, state: &mut DefaultHasher)
        ensures
            final(state)@ == old(state)@ + self.key_bytes(),
    ;
}

/// On the first line of a layout all glyphs stand on one baseline, also
/// where runs of different scale meet: the origin of each glyph lies below the
/// screen position by the line's ascent, which is the greatest ascent among
/// the words of the line. A single line has no glyphs but these.
pub proof fn law_one_baseline<L: LineBreaker>(
    layout: Layout<L>,
    fonts: Seq<Font>,
    section: SectionView,
)
    requires
        section.bounds.has_room(),
    ensures
        ({
            let words = section_words(fonts, layout.spec_line_breaker(), section);
            let line = first_line(words, section.bounds.width);
            let glyphs = layout.glyphs(fonts, section);
            &&& line.glyphs.len() <= glyphs.len()
            &&& layout is SingleLine ==> glyphs.len() == line.glyphs.len()
            &&& forall|i: int|
                0 <= i < line.glyphs.len() ==> (#[trigger] glyphs[i]).0.position.y == clamp(
                    section.screen_position.y + line.max_v_metrics.ascent,
                )
            &&& forall|j: int|
                0 <= j < line_len(words, section.bounds.width) ==> (#[trigger] words[j])
                    .max_v_metrics.ascent <= line.max_v_metrics.ascent
            &&& words.len() > 0 ==> line.max_v_metrics.ascent == 0 || exists|j: int|
                0 <= j < line_len(words, section.bounds.width) && (#[trigger] words[j])
                    .max_v_metrics == line.max_v_metrics
        }),
{
    let chars = section_characters(
        fonts,
        layout.spec_line_breaker(),
        section.text,
        section.text_index as int,
    );
    let words = words_of(chars);
    if words.len() > 0 {
        lemma_words_well_placed(chars);
        lemma_line_len_bounds(words, section.bounds.width, 0);
        let n = line_len(words, section.bounds.width);
        lemma_line_baseline(words, n);
        let line = line_of(words, n);
        let placed = aligned(
            line,
            section.screen_position,
            layout.spec_h_align(),
            layout.spec_v_align(),
        );
        assert forall|i: int| 0 <= i < line.glyphs.len() implies (#[trigger] layout.glyphs(
            fonts,
            section,
        )[i]) == placed[i] by {}
    }
}

/// A centered single line has the screen position in the middle between
/// its first and its last glyph: the position is as far from the origin of
/// the first glyph as from the end of the last glyph's advance, but for the
/// half unit that an odd width leaves to the right. This holds of a line that
/// starts and ends with a word in which something draws, where none of the
/// sums that place the last glyph has reached an end of the range of `i64`.
pub proof fn law_centered_glyphs<L: LineBreaker>(
    layout: Layout<L>,
    fonts: Seq<Font>,
    section: SectionView,
)
    requires
        layout is SingleLine,
        layout.spec_h_align() == HorizontalAlign::Center,
        layout.glyphs(fonts, section).len() > 0,
        ({
            let words = section_words(fonts, layout.spec_line_breaker(), section);
            let n = line_len(words, section.bounds.width);
            let line = first_line(words, section.bounds.width);
            let start = line_start(
                line.width,
                section.screen_position,
                layout.spec_h_align(),
                layout.spec_v_align(),
            );
            &&& words[0].bounds.is_some()
            &&& words[n - 1].bounds.is_some()
            &&& inside(words[n - 1].layout_width)
            &&& inside(line.width)
            &&& inside(line.glyphs.last().0.relative.x)
            &&& inside(start.x)
            &&& inside(layout.glyphs(fonts, section).last().0.position.x)
        }),
    ensures
        ({
            let glyphs = layout.glyphs(fonts, section);
            let line = first_line(
                section_words(fonts, layout.spec_line_breaker(), section),
                section.bounds.width,
            );
            let left = section.screen_position.x - glyphs[0].0.position.x;
            let right = glyphs.last().0.position.x + glyphs.last().0.glyph.advance_width
                - section.screen_position.x;
            &&& left + right == line.width
            &&& 0 <= right - left <= 1
        }),
{
    let chars = section_characters(
        fonts,
        layout.spec_line_breaker(),
        section.text,
        section.text_index as int,
    );
    let words = words_of(chars);
    lemma_words_well_placed(chars);
    lemma_line_len_bounds(words, section.bounds.width, 0);
    let n = line_len(words, section.bounds.width);
    lemma_line_edges(words, n);
    let line = line_of(words, n);
    let start = line_start(
        line.width,
        section.screen_position,
        layout.spec_h_align(),
        layout.spec_v_align(),
    );
    let glyphs = layout.glyphs(fonts, section);
}

/// The number that stands for a horizontal alignment in a key.
pub open spec fn h_align_code(h_align: HorizontalAlign) -> u8 {
    match h_align {
        HorizontalAlign::Left => 0,
        HorizontalAlign::Center => 1,
        HorizontalAlign::Right => 2,
    }
}

impl<L: LineBreaker> GlyphPositioner for Layout<L> {
    open spec fn glyphs(&self, fonts: Seq<Font>, section: SectionView) -> Seq<
        (PositionedGlyph, Color, FontId),
    > {
        let words = section_words(fonts, self.spec_line_breaker(), section);
        if !section.bounds.has_room() {
            Seq::empty()
        } else {
            match *self {
                Layout::SingleLine { h_align, v_align, .. } => match single_line_glyphs(
                    words,
                    section.screen_position,
                    section.bounds.width,
                    h_align,
                    v_align,
                ) {
                    Some(glyphs) => glyphs,
                    None => Seq::empty(),
                },
                Layout::Wrap { h_align, v_align, .. } => page_glyphs(
                    words,
                    section.screen_position,
                    section.bounds.width,
                    h_align,
                    v_align,
                ),
            }
        }
    }

    open spec fn bounds(&self, section: SectionView) -> Rect {
        aligned_bounds(self.spec_h_align(), section.screen_position, section.bounds)
    }

    open spec fn key_bytes(&self) -> Seq<Seq<u8>> {
        seq![
            seq![
                if *self is SingleLine {
                    0u8
                } else {
                    1u8
                },
                h_align_code(self.spec_h_align()),
            ],
        ] + self.spec_line_breaker().key_bytes()
    }

    fn calculate_glyphs(&self, fonts: &Vec<Font>, section: &SectionGlyphInfo) -> (r: Vec<
        (PositionedGlyph, Color, FontId),
    >) {
        if section.bounds.width <= 0 || section.bounds.height <= 0 {
            return Vec::new();
        }
        match *self {
            Layout::SingleLine { line_breaker, h_align, v_align } => {
                let words = Words::new(fonts, &section.text, section.text_index, line_breaker);
                match single_line(
                    words,
                    section.screen_position,
                    section.bounds.width,
                    h_align,
                    v_align,
                ) {
                    Some(glyphs) => glyphs,
                    None => Vec::new(),
                }
            },
            Layout::Wrap { line_breaker, h_align, v_align } => {
                let words = Words::new(fonts, &section.text, section.text_index, line_breaker);
                page(words, section.screen_position, section.bounds.width, h_align, v_align)
            },
        }
    }

    fn bounds_rect(&self, section: &SectionGlyphInfo) -> (r: Rect) {
        let screen_x = section.screen_position.x;
        let screen_y = section.screen_position.y;
        let bound_w = section.bounds.width;
        let bound_h = section.bounds.height;
        let bottom = sat_add(screen_y, bound_h);
        let h_align = match *self {
            Layout::SingleLine { h_align, .. } => h_align,
            Layout::Wrap { h_align, .. } => h_align,
        };
        match h_align {
            HorizontalAlign::Left => Rect {
                min: Point { x: screen_x, y: screen_y },
                max: Point { x: sat_add(screen_x, bound_w), y: bottom },
            },
            HorizontalAlign::Center => Rect {
                min: Point { x: sat_sub(screen_x, half(bound_w)), y: screen_y },
                max: Point { x: sat_add(screen_x, half(bound_w)), y: bottom },
            },
            HorizontalAlign::Right => Rect {
                min: Point { x: sat_sub(screen_x, bound_w), y: sat_sub(screen_y, bound_h) },
                max: Point { x: screen_x, y: screen_y },
            },
        }
    }

    fn write_key(&self, state: &mut DefaultHasher) {
        let (kind, h_align, line_breaker) = match *self {
            Layout::SingleLine { line_breaker, h_align, .. } => (0u8, h_align, line_breaker),
            Layout::Wrap { line_breaker, h_align, .. } => (1u8, h_align, line_breaker),
        };
        let code: u8 = match h_align {
            HorizontalAlign::Left => 0,
            HorizontalAlign::Center => 1,
            HorizontalAlign::Right => 2,
        };
        let mut bytes: Vec<u8> = Vec::new();
        bytes.push(kind);
        bytes.push(code);
        state.write(bytes.as_slice());
        assert(bytes@ == seq![kind, code]);
        let ghost written = state@;
        line_breaker.write_key(state);
        assert(written + line_breaker.key_bytes() == old(state)@ + (seq![bytes@]
            + line_breaker.key_bytes()));
    }
}

} // verus!
