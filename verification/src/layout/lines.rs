//! Lines: words packed side by side up to a width bound.

use crate::font::{FontId, PositionedGlyph, VMetrics};
use crate::geometry::{clamp, half, sat_add, sat_sub, Point};
use crate::layout::words::{
    lemma_word_len_bounds, on_baseline, well_placed, words_of, zero_v_metrics,
    RelativePositionedGlyph, Word, WordView, Words,
};
use crate::layout::{HorizontalAlign, VerticalAlign};
use crate::linebreak::LineBreaker;
use crate::section::Color;
use vstd::prelude::*;

verus! {

/// Each of `glyphs` moved by `by`.
pub open spec fn moved_all(
    glyphs: Seq<(RelativePositionedGlyph, Color, FontId)>,
    by: Point,
) -> Seq<(RelativePositionedGlyph, Color, FontId)> {
    Seq::new(glyphs.len(), |i: int| (glyphs[i].0.spec_moved(by), glyphs[i].1, glyphs[i].2))
}

/// Each of `glyphs` on the screen, when their common start is at `pos`.
pub open spec fn positioned_all(
    glyphs: Seq<(RelativePositionedGlyph, Color, FontId)>,
    pos: Point,
) -> Seq<(PositionedGlyph, Color, FontId)> {
    Seq::new(
        glyphs.len(),
        |i: int| (glyphs[i].0.spec_screen_positioned(pos), glyphs[i].1, glyphs[i].2),
    )
}

/// Adds each of `glyphs`, moved by `by`, at the end of `to`.
fn push_moved(
    to: &mut Vec<(RelativePositionedGlyph, Color, FontId)>,
    glyphs: &Vec<(RelativePositionedGlyph, Color, FontId)>,
    by: Point,
)
    ensures
        final(to)@ == old(to)@ + moved_all(glyphs@, by),
{
    let mut i: usize = 0;
    while i < glyphs.len()
        invariant
            i <= glyphs.len(),
            to@ == old(to)@ + moved_all(glyphs@, by).take(i as int),
        decreases glyphs.len() - i,
    {
        let (g, color, font_id) = glyphs[i];
        let placed = RelativePositionedGlyph { relative: g.relative.offset(by), glyph: g.glyph };
        to.push((placed, color, font_id));
        i += 1;
        assert(to@ == old(to)@ + moved_all(glyphs@, by).take(i as int));
    }
    assert(moved_all(glyphs@, by).take(i as int) == moved_all(glyphs@, by));
}

/// Moves each of `glyphs` by `by`.
fn move_all(glyphs: &mut Vec<(RelativePositionedGlyph, Color, FontId)>, by: Point)
    ensures
        final(glyphs)@ == moved_all(old(glyphs)@, by),
{
    let mut i: usize = 0;
    while i < glyphs.len()
        invariant
            i <= glyphs.len(),
            glyphs@.len() == old(glyphs)@.len(),
            forall|j: int| 0 <= j < i ==> glyphs@[j] == moved_all(old(glyphs)@, by)[j],
            forall|j: int| i <= j < glyphs@.len() ==> glyphs@[j] == old(glyphs)@[j],
        decreases glyphs.len() - i,
    {
        let (g, color, font_id) = glyphs[i];
        let placed = RelativePositionedGlyph { relative: g.relative.offset(by), glyph: g.glyph };
        glyphs[i] = (placed, color, font_id);
        i += 1;
    }
    assert(glyphs@ == moved_all(old(glyphs)@, by));
}

/// A line: glyphs placed from left to right from (0, 0), all on one
/// baseline.
#[derive(Clone, Debug)]
pub struct Line {
    pub glyphs: Vec<(RelativePositionedGlyph, Color, FontId)>,
    /// The vertical metrics of the word with the greatest ascent.
    pub max_v_metrics: VMetrics,
    /// The width of the line, with the space at its end.
    pub width: i64,
}

/// What a `Line` holds, with its glyphs as a sequence.
pub struct LineView {
    pub glyphs: Seq<(RelativePositionedGlyph, Color, FontId)>,
    pub max_v_metrics: VMetrics,
    pub width: i64,
}

impl View for Line {
    type V = LineView;

    open spec fn view(&self) -> LineView {
        LineView { glyphs: self.glyphs@, max_v_metrics: self.max_v_metrics, width: self.width }
    }
}

/// The line without any word.
pub open spec fn empty_line() -> LineView {
    LineView { glyphs: Seq::empty(), max_v_metrics: zero_v_metrics(), width: 0 }
}

/// How far to the right the word `w` reaches from its start: to the right
/// edge of its last glyph that draws anything, or, without one, over its whole
/// width.
pub open spec fn word_max_x(w: WordView) -> i64 {
    match w.bounds {
        Some(b) => b.max.x,
        None => w.layout_width,
    }
}

/// Whether `w`, put at the end of `line`, would reach past `width_bound`.
pub open spec fn overflows(line: LineView, w: WordView, width_bound: i64) -> bool {
    clamp(line.width + word_max_x(w)) > width_bound
}

/// The line `line` with the word `w` added at its end. If the word's ascent
/// is greater than the line's, the glyphs that the line holds move down by
/// the difference and the line takes the word's vertical metrics. The word's
/// glyphs stand at the end of the line, on its baseline; those of a word in
/// which nothing draws are left out. The line grows by the word's width.
pub open spec fn line_with(line: LineView, w: WordView) -> LineView {
    let grows = w.max_v_metrics.ascent > line.max_v_metrics.ascent;
    let max_v_metrics = if grows {
        w.max_v_metrics
    } else {
        line.max_v_metrics
    };
    let held = if grows {
        moved_all(
            line.glyphs,
            Point { x: 0, y: clamp(w.max_v_metrics.ascent - line.max_v_metrics.ascent) },
        )
    } else {
        line.glyphs
    };
    let added = if w.bounds.is_some() {
        moved_all(w.glyphs, Point { x: line.width, y: max_v_metrics.ascent })
    } else {
        Seq::empty()
    };
    LineView { glyphs: held + added, max_v_metrics, width: clamp(line.width + w.layout_width) }
}

/// The line made of the first `n` of `words`.
pub open spec fn line_of(words: Seq<WordView>, n: int) -> LineView
    decreases n,
{
    if n <= 0 {
        empty_line()
    } else {
        line_with(line_of(words, n - 1), words[n - 1])
    }
}

/// The number of words on the line that starts with the first `taken` of
/// `words`: more words are added until none is left, the next one would reach
/// past the bound, or the last one added asks for a hard break. The first word
/// of a line is taken even if it reaches past the bound.
pub open spec fn line_len_from(words: Seq<WordView>, width_bound: i64, taken: int) -> int
    decreases words.len() - taken,
{
    if taken < 0 || taken >= words.len() {
        taken
    } else if taken > 0 && overflows(line_of(words, taken), words[taken], width_bound) {
        taken
    } else if words[taken].hard_break {
        taken + 1
    } else {
        line_len_from(words, width_bound, taken + 1)
    }
}

/// The number of words on the first line of `words`.
pub open spec fn line_len(words: Seq<WordView>, width_bound: i64) -> int {
    line_len_from(words, width_bound, 0)
}

/// The first line of `words`.
pub open spec fn first_line(words: Seq<WordView>, width_bound: i64) -> LineView {
    line_of(words, line_len(words, width_bound))
}

/// A line that starts with `taken` words ends with at least as many and with
/// no more than there are; it takes at least one word if there is any.
pub proof fn lemma_line_len_bounds(words: Seq<WordView>, width_bound: i64, taken: int)
    requires
        0 <= taken <= words.len(),
    ensures
        taken <= line_len_from(words, width_bound, taken) <= words.len(),
        taken == 0 && words.len() > 0 ==> line_len_from(words, width_bound, taken) >= 1,
    decreases words.len() - taken,
{
    if taken < words.len() && !(taken > 0 && overflows(
        line_of(words, taken),
        words[taken],
        width_bound,
    )) && !words[taken].hard_break {
        lemma_line_len_bounds(words, width_bound, taken + 1);
    }
}

/// A line is as long as it may be. It has at least one word. Each word but
/// the first fits within the bound behind the words before it, and no word
/// but the last asks for a hard break. The line ends where the words end,
/// after a hard break, or where the next word would reach past the bound.
pub proof fn law_line_is_greedy(words: Seq<WordView>, width_bound: i64)
    requires
        words.len() > 0,
    ensures
        ({
            let n = line_len(words, width_bound);
            &&& 1 <= n <= words.len()
            &&& forall|k: int|
                0 < k < n ==> !overflows(line_of(words, k), #[trigger] words[k], width_bound)
            &&& forall|k: int| 0 <= k < n - 1 ==> !(#[trigger] words[k]).hard_break
            &&& (n == words.len() || words[n - 1].hard_break || overflows(
                line_of(words, n),
                words[n],
                width_bound,
            ))
        }),
{
    lemma_line_is_greedy_from(words, width_bound, 0);
}

/// The same for a line that has taken `taken` words so far.
proof fn lemma_line_is_greedy_from(words: Seq<WordView>, width_bound: i64, taken: int)
    requires
        0 <= taken < words.len(),
        forall|k: int|
            0 < k < taken ==> !overflows(line_of(words, k), #[trigger] words[k], width_bound),
        forall|k: int| 0 <= k < taken ==> !(#[trigger] words[k]).hard_break,
        taken == 0 || !overflows(line_of(words, taken), words[taken], width_bound),
    ensures
        ({
            let n = line_len_from(words, width_bound, taken);
            &&& taken < n <= words.len()
            &&& forall|k: int|
                0 < k < n ==> !overflows(line_of(words, k), #[trigger] words[k], width_bound)
            &&& forall|k: int| 0 <= k < n - 1 ==> !(#[trigger] words[k]).hard_break
            &&& (n == words.len() || words[n - 1].hard_break || overflows(
                line_of(words, n),
                words[n],
                width_bound,
            ))
        }),
    decreases words.len() - taken,
{
    if !words[taken].hard_break {
        if taken + 1 < words.len() && !overflows(
            line_of(words, taken + 1),
            words[taken + 1],
            width_bound,
        ) {
            lemma_line_is_greedy_from(words, width_bound, taken + 1);
        } else {
            assert(line_len_from(words, width_bound, taken + 1) == taken + 1);
        }
    }
}

/// On a line of well-placed words that starts with a word in which something
/// draws, the first glyph stands at the start of the line. If something draws
/// in the last word too, the last glyph of the line is the last glyph of that
/// word, moved to the right by the width of the words before it.
pub proof fn lemma_line_edges(words: Seq<WordView>, n: int)
    requires
        1 <= n <= words.len(),
        forall|i: int| 0 <= i < n ==> well_placed(#[trigger] words[i]),
        words[0].bounds.is_some(),
    ensures
        line_of(words, n).glyphs.len() > 0,
        line_of(words, n).glyphs[0].0.relative.x == 0,
        line_of(words, n).width == clamp(line_of(words, n - 1).width + words[n - 1].layout_width),
        words[n - 1].bounds.is_some() ==> line_of(words, n).glyphs.last().0.glyph == words[n
            - 1].glyphs.last().0.glyph && line_of(words, n).glyphs.last().0.relative.x == clamp(
            words[n - 1].glyphs.last().0.relative.x + line_of(words, n - 1).width,
        ),
    decreases n,
{
    if n > 1 {
        lemma_line_edges(words, n - 1);
    }
    if words[n - 1].bounds.is_some() {
        assert(line_of(words, n).glyphs.last() == moved_all(
            words[n - 1].glyphs,
            Point { x: line_of(words, n - 1).width, y: line_of(words, n).max_v_metrics.ascent },
        ).last());
    }
}

/// The glyphs that the line of the first `n` of `words` shows, each as it
/// stands in its word: those of every word in which something draws, in order.
pub open spec fn line_sources(words: Seq<WordView>, n: int) -> Seq<
    (RelativePositionedGlyph, Color, FontId),
>
    decreases n,
{
    if n <= 0 {
        Seq::empty()
    } else if words[n - 1].bounds.is_some() {
        line_sources(words, n - 1) + words[n - 1].glyphs
    } else {
        line_sources(words, n - 1)
    }
}

/// Whether each glyph of the first `n` of `words`, moved down from its
/// height in its word by the ascent of their line, stands at a height that
/// `i64` can hold.
pub open spec fn heights_fit(words: Seq<WordView>, n: int) -> bool {
    forall|i: int|
        0 <= i < line_sources(words, n).len() ==> (#[trigger] line_sources(
            words,
            n,
        )[i]).0.relative.y + line_of(words, n).max_v_metrics.ascent <= i64::MAX
}

/// Whether the line of the first `n` of `words` has all its glyphs on the
/// baseline of its tallest word.
///
/// The line's ascent is the greatest ascent among its words, and never
/// negative. Its vertical metrics are those of the first word that has this
/// ascent, or zero if no word has an ascent above zero. The line shows the
/// glyphs of its words unchanged but for their place, and each glyph stands
/// lower than in its word by the line's ascent, whether its word came before
/// or after the tallest one.
pub open spec fn harmonized(words: Seq<WordView>, n: int) -> bool {
    let line = line_of(words, n);
    &&& line.max_v_metrics.ascent >= 0
    &&& forall|i: int|
        0 <= i < n ==> (#[trigger] words[i]).max_v_metrics.ascent <= line.max_v_metrics.ascent
    &&& line.max_v_metrics.ascent == 0 ==> line.max_v_metrics == zero_v_metrics()
    &&& line.max_v_metrics.ascent > 0 ==> exists|j: int|
        0 <= j < n && (#[trigger] words[j]).max_v_metrics == line.max_v_metrics && forall|i: int|
            0 <= i < j ==> (#[trigger] words[i]).max_v_metrics.ascent
                < line.max_v_metrics.ascent
    &&& line.glyphs.len() == line_sources(words, n).len()
    &&& forall|i: int|
        0 <= i < line_sources(words, n).len() ==> {
            let shown = (#[trigger] line.glyphs[i]);
            let source = line_sources(words, n)[i];
            &&& shown.0.glyph == source.0.glyph
            &&& shown.1 == source.1
            &&& shown.2 == source.2
            &&& shown.0.relative.y == source.0.relative.y + line.max_v_metrics.ascent
        }
}

/// Every line has all its glyphs on the baseline of its tallest word,
/// whatever the height at which a glyph stands in its word and whatever the
/// order in which tall and short words come. This holds wherever the heights
/// are such that `i64` can hold them.
pub proof fn law_line_baseline(words: Seq<WordView>, n: int)
    requires
        0 <= n <= words.len(),
        heights_fit(words, n),
    ensures
        harmonized(words, n),
    decreases n,
{
    if n > 0 {
        let before = line_of(words, n - 1);
        let w = words[n - 1];
        let line = line_of(words, n);
        let sources = line_sources(words, n);
        let sources_before = line_sources(words, n - 1);
        assert(line == line_with(before, w));
        assert(before.max_v_metrics.ascent <= line.max_v_metrics.ascent);
        assert forall|i: int| 0 <= i < sources_before.len() implies (#[trigger] sources_before[i]).0.relative.y
            + before.max_v_metrics.ascent <= i64::MAX by {
            assert(sources[i] == sources_before[i]);
        }
        law_line_baseline(words, n - 1);
        assert forall|i: int| 0 <= i < sources.len() implies {
            let shown = (#[trigger] line.glyphs[i]);
            let source = sources[i];
            &&& shown.0.glyph == source.0.glyph
            &&& shown.1 == source.1
            &&& shown.2 == source.2
            &&& shown.0.relative.y == source.0.relative.y + line.max_v_metrics.ascent
        } by {
            if i < sources_before.len() {
                assert(sources[i] == sources_before[i]);
                let kept = before.glyphs[i];
                assert(kept.0.relative.y == sources[i].0.relative.y
                    + before.max_v_metrics.ascent);
            } else {
                assert(sources[i] == w.glyphs[i - sources_before.len()]);
            }
        }
        if line.max_v_metrics.ascent > 0 {
            if w.max_v_metrics.ascent > before.max_v_metrics.ascent {
                assert(words[n - 1].max_v_metrics == line.max_v_metrics);
            } else {
                let j = choose|j: int|
                    0 <= j < n - 1 && (#[trigger] words[j]).max_v_metrics == before.max_v_metrics
                        && forall|i: int|
                        0 <= i < j ==> (#[trigger] words[i]).max_v_metrics.ascent
                            < before.max_v_metrics.ascent;
                assert(words[j].max_v_metrics == line.max_v_metrics);
            }
        }
    }
}

/// On a line every glyph stands on one baseline, at the line's ascent below
/// the top of the line, whatever the order in which tall and short words
/// came. The line's ascent is the greatest ascent among its words, and never
/// negative.
pub proof fn lemma_line_baseline(words: Seq<WordView>, n: int)
    requires
        0 <= n <= words.len(),
        forall|i: int| 0 <= i < n ==> on_baseline((#[trigger] words[i]).glyphs, 0),
    ensures
        on_baseline(line_of(words, n).glyphs, line_of(words, n).max_v_metrics.ascent),
        line_of(words, n).max_v_metrics.ascent >= 0,
        forall|i: int|
            0 <= i < n ==> (#[trigger] words[i]).max_v_metrics.ascent <= line_of(
                words,
                n,
            ).max_v_metrics.ascent,
        n > 0 ==> line_of(words, n).max_v_metrics.ascent == 0 || exists|i: int|
            0 <= i < n && (#[trigger] words[i]).max_v_metrics == line_of(words, n).max_v_metrics,
    decreases n,
{
    if n > 0 {
        lemma_line_baseline(words, n - 1);
    }
}

impl Line {
    /// The line without any word.
    pub fn new() -> (r: Line)
        ensures
            r@ == empty_line(),
    {
        Line {
            glyphs: Vec::new(),
            max_v_metrics: VMetrics { ascent: 0, descent: 0, line_gap: 0 },
            width: 0,
        }
    }

    /// Adds the word `word` at the end of the line.
    pub fn push(&mut self, word: &Word)
        ensures
            final(self)@ == line_with(old(self)@, word@),
    {
        if word.max_v_metrics.ascent > self.max_v_metrics.ascent {
            let rise = sat_sub(word.max_v_metrics.ascent, self.max_v_metrics.ascent);
            move_all(&mut self.glyphs, Point { x: 0, y: rise });
            self.max_v_metrics = word.max_v_metrics;
        }
        if word.bounds.is_some() {
            push_moved(
                &mut self.glyphs,
                &word.glyphs,
                Point { x: self.width, y: self.max_v_metrics.ascent },
            );
        }
        self.width = sat_add(self.width, word.layout_width);
    }

    /// Whether `word`, put at the end of the line, would reach past
    /// `width_bound`.
    pub fn overflows(&self, word: &Word, width_bound: i64) -> (r: bool)
        ensures
            r == overflows(self@, word@, width_bound),
    {
        let word_max_x = match word.bounds {
            Some(b) => b.max.x,
            None => word.layout_width,
        };
        sat_add(self.width, word_max_x) > width_bound
    }

    /// The distance from this line's baseline to the next.
    pub fn line_height(&self) -> (r: i64)
        ensures
            r == self@.max_v_metrics.spec_line_height(),
    {
        self.max_v_metrics.line_height()
    }

    /// The glyphs of the line on the screen: the line starts at the screen
    /// position (left), has it in its middle (center), or ends at it
    /// (right).
    pub fn aligned_on_screen(
        self,
        screen_position: Point,
        h_align: HorizontalAlign,
        v_align: VerticalAlign,
    ) -> (r: Vec<(PositionedGlyph, Color, FontId)>)
        ensures
            r@ == aligned(self@, screen_position, h_align, v_align),
    {
        let mut out: Vec<(PositionedGlyph, Color, FontId)> = Vec::new();
        if self.glyphs.len() == 0 {
            return out;
        }
        let screen_left = match h_align {
            HorizontalAlign::Left => screen_position,
            HorizontalAlign::Center => Point {
                x: sat_sub(screen_position.x, half(self.width)),
                y: screen_position.y,
            },
            HorizontalAlign::Right => Point {
                x: sat_sub(screen_position.x, self.width),
                y: screen_position.y,
            },
        };
        let screen_pos = match v_align {
            VerticalAlign::Top => screen_left,
        };
        let mut i: usize = 0;
        while i < self.glyphs.len()
            invariant
                i <= self.glyphs.len(),
                out@ == positioned_all(self.glyphs@, screen_pos).take(i as int),
            decreases self.glyphs.len() - i,
        {
            let (glyph, color, font_id) = self.glyphs[i];
            out.push((glyph.screen_positioned(screen_pos), color, font_id));
            i += 1;
        }
        assert(positioned_all(self.glyphs@, screen_pos).take(i as int) == positioned_all(
            self.glyphs@,
            screen_pos,
        ));
        out
    }
}

/// Where a line of width `width` starts on the screen.
pub open spec fn line_start(
    width: i64,
    screen_position: Point,
    h_align: HorizontalAlign,
    v_align: VerticalAlign,
) -> Point {
    match h_align {
        HorizontalAlign::Left => screen_position,
        HorizontalAlign::Center => Point {
            x: clamp(screen_position.x - width / 2),
            y: screen_position.y,
        },
        HorizontalAlign::Right => Point {
            x: clamp(screen_position.x - width),
            y: screen_position.y,
        },
    }
}

/// A centered line has the screen position in its middle: the position is
/// as far from the line's left edge as from its right edge, but for the half
/// unit that an odd width leaves to the right. This holds wherever the left
/// edge is a position that `i64` can hold.
pub proof fn law_center_symmetry(width: i64, screen_position: Point, v_align: VerticalAlign)
    requires
        i64::MIN <= screen_position.x - width / 2 <= i64::MAX,
    ensures
        ({
            let start = line_start(width, screen_position, HorizontalAlign::Center, v_align);
            let left = screen_position.x - start.x;
            let right = start.x + width - screen_position.x;
            &&& start.y == screen_position.y
            &&& left + right == width
            &&& 0 <= right - left <= 1
        }),
{
}

/// The glyphs of `line` on the screen.
pub open spec fn aligned(
    line: LineView,
    screen_position: Point,
    h_align: HorizontalAlign,
    v_align: VerticalAlign,
) -> Seq<(PositionedGlyph, Color, FontId)> {
    positioned_all(line.glyphs, line_start(line.width, screen_position, h_align, v_align))
}

/// Gives the lines of a section one by one, each no wider than the bound
/// where its words allow it.
pub struct Lines<'a, 'b, L: LineBreaker> {
    words: Words<'a, 'b, L>,
    /// A word that was taken from `words` and is on no line yet.
    peeked: Option<Word>,
    width_bound: i64,
}

impl<'a, 'b, L: LineBreaker> Lines<'a, 'b, L> {
    /// The words that the lines still to come are made of.
    pub closed spec fn pending(self) -> Seq<WordView> {
        match self.peeked {
            Some(w) => seq![w@] + words_of(self.words.remaining()),
            None => words_of(self.words.remaining()),
        }
    }

    /// The bound that the lines are held to.
    pub closed spec fn bound(self) -> i64 {
        self.width_bound
    }

    /// The lines of `words`, held to `width_bound`.
    pub fn new(words: Words<'a, 'b, L>, width_bound: i64) -> (r: Self)
        ensures
            r.pending() == words_of(words.remaining()),
            r.bound() == width_bound,
    {
        Lines { words, peeked: None, width_bound }
    }

    /// Takes the next word into the buffer, if the buffer is empty and a
    /// word is left.
    fn peek(&mut self)
        ensures
            final(self).pending() == old(self).pending(),
            final(self).bound() == old(self).bound(),
            final(self).peeked.is_none() <==> old(self).pending().len() == 0,
    {
        if self.peeked.is_none() {
            let ghost chars = self.words.remaining();
            proof {
                lemma_word_len_bounds(chars);
            }
            self.peeked = self.words.next();
        }
    }

    /// The next line, or `None` when no word is left. The line has all its
    /// glyphs on the baseline of its tallest word, wherever their heights are
    /// such that `i64` can hold them.
    pub fn next(&mut self) -> (r: Option<Line>)
        ensures
            final(self).bound() == old(self).bound(),
            old(self).pending().len() == 0 ==> r.is_none() && final(self).pending().len() == 0,
            old(self).pending().len() > 0 ==> r.is_some() && r.unwrap()@ == first_line(
                old(self).pending(),
                old(self).bound(),
            ) && final(self).pending() == old(self).pending().skip(
                line_len(old(self).pending(), old(self).bound()),
            ),
            heights_fit(old(self).pending(), line_len(old(self).pending(), old(self).bound()))
                ==> harmonized(
                old(self).pending(),
                line_len(old(self).pending(), old(self).bound()),
            ),
    {
        let ghost all = self.pending();
        let ghost bound = self.bound();
        proof {
            lemma_line_len_bounds(all, bound, 0);
            if heights_fit(all, line_len(all, bound)) {
                law_line_baseline(all, line_len(all, bound));
            }
        }
        let mut line = Line::new();
        let mut progressed = false;
        let ghost mut n: int = 0;
        loop
            invariant_except_break
                line_len_from(all, bound, n) == line_len(all, bound),
            invariant
                0 <= n <= all.len(),
                progressed <==> n > 0,
                self.bound() == bound,
                self.pending() == all.skip(n),
                line@ == line_of(all, n),
            ensures
                n == line_len(all, bound),
                progressed <==> n > 0,
                self.bound() == bound,
                self.pending() == all.skip(n),
                line@ == line_of(all, n),
            decreases all.len() - n,
        {
            self.peek();
            let word = match self.peeked.take() {
                None => {
                    break;
                },
                Some(word) => word,
            };
            proof {
                assert(all.skip(n)[0] == all[n]);
                assert(all.skip(n).drop_first() == all.skip(n + 1));
            }
            if progressed && line.overflows(&word, self.width_bound) {
                self.peeked = Some(word);
                break;
            }
            line.push(&word);
            progressed = true;
            proof {
                n = n + 1;
            }
            if word.hard_break {
                break;
            }
        }
        proof {
            lemma_line_len_bounds(all, bound, 0);
        }
        if progressed {
            Some(line)
        } else {
            None
        }
    }
}

} // verus!
