//! Words: the glyphs between one line break and the next.
//!
//! The end of a run is no break by itself: a word goes on from one run into
//! the next where the strategy reports no break between them.

use crate::font::{Font, FontId, GlyphId, PositionedGlyph, ScaledGlyph, VMetrics};
use crate::geometry::{clamp, sat_add, Point, Rect};
use crate::linebreak::{advance_to, break_after, LineBreak, LineBreaker};
use crate::section::{fonts_cover, run_views, Color, GlyphInfo, RunView};
use crate::text::{
    byte_offset, char_is_control, char_len_utf8, is_control, lemma_byte_offset_monotonic,
};
use vstd::prelude::*;

verus! {

/// Vertical metrics of nothing at all.
pub open spec fn zero_v_metrics() -> VMetrics {
    VMetrics { ascent: 0, descent: 0, line_gap: 0 }
}

/// A glyph with its place relative to the start of its word or line.
#[derive(Clone, Copy, Debug, PartialEq, Eq, Hash)]
pub struct RelativePositionedGlyph {
    pub relative: Point,
    pub glyph: ScaledGlyph,
}

impl RelativePositionedGlyph {
    /// The box of the glyph's outline, relative to the same start.
    pub open spec fn spec_bounds(self) -> Option<Rect> {
        match self.glyph.bounds {
            Some(b) => Some(b.spec_offset(self.relative)),
            None => None,
        }
    }

    /// The glyph on the screen, when the start is at `pos`.
    pub open spec fn spec_screen_positioned(self, pos: Point) -> PositionedGlyph {
        PositionedGlyph { glyph: self.glyph, position: pos.spec_offset(self.relative) }
    }

    /// The same glyph, moved by `by`.
    pub open spec fn spec_moved(self, by: Point) -> RelativePositionedGlyph {
        RelativePositionedGlyph { relative: self.relative.spec_offset(by), glyph: self.glyph }
    }

    /// The box of the glyph's outline, relative to the same start.
    pub fn bounds(&self) -> (r: Option<Rect>)
        ensures
            r == self.spec_bounds(),
    {
        match self.glyph.bounds {
            Some(b) => Some(b.offset(self.relative)),
            None => None,
        }
    }

    /// The glyph on the screen, when the start is at `pos`.
    pub fn screen_positioned(self, pos: Point) -> (r: PositionedGlyph)
        ensures
            r == self.spec_screen_positioned(pos),
    {
        PositionedGlyph { glyph: self.glyph, position: pos.offset(self.relative) }
    }
}

/// One character of a run, with what word grouping needs to know of it.
#[derive(Clone, Copy, Debug, PartialEq, Eq, Hash)]
pub struct Character {
    /// The glyph at the run's scale; none for a control character.
    pub glyph: Option<ScaledGlyph>,
    /// The kerning between the glyph before this one in its run and this
    /// one; zero for the first glyph of a run.
    pub kerning: i64,
    /// The vertical metrics of the run's font at the run's scale.
    pub v_metrics: VMetrics,
    pub color: Color,
    pub font_id: FontId,
    /// The break just after this character, if there is one.
    pub line_break: Option<LineBreak>,
}

/// The glyph of the last character before `chars[k]` that is no control
/// character.
pub open spec fn glyph_before(font: Font, chars: Seq<char>, k: int) -> Option<GlyphId>
    decreases k,
{
    if k <= 0 {
        None
    } else if is_control(chars[k - 1]) {
        glyph_before(font, chars, k - 1)
    } else {
        Some(font.spec_glyph(chars[k - 1]).id)
    }
}

/// Character `k` of `chars`, the characters that are left of `run`.
pub open spec fn placed_character(
    font: Font,
    breaks: Seq<LineBreak>,
    chars: Seq<char>,
    run: RunView,
    k: int,
) -> Character {
    let metrics = font.spec_glyph(chars[k]);
    Character {
        glyph: if is_control(chars[k]) {
            None
        } else {
            Some(metrics.spec_scaled(run.scale))
        },
        kerning: if is_control(chars[k]) {
            0
        } else {
            match glyph_before(font, chars, k) {
                Some(before) => font.spec_pair_kerning(run.scale, before, metrics.id),
                None => 0,
            }
        },
        v_metrics: font.spec_v_metrics(run.scale),
        color: run.color,
        font_id: run.font_id,
        line_break: break_after(breaks, byte_offset(chars, k + 1)),
    }
}

/// The characters `chars` of `run`, read with `font` and `breaks`.
pub open spec fn placed_characters(
    font: Font,
    breaks: Seq<LineBreak>,
    chars: Seq<char>,
    run: RunView,
) -> Seq<Character> {
    Seq::new(chars.len(), |k: int| placed_character(font, breaks, chars, run, k))
}

/// The characters of what is left of `run`, read with `font` and `breaks`.
pub open spec fn run_characters(font: Font, breaks: Seq<LineBreak>, run: RunView) -> Seq<
    Character,
> {
    placed_characters(font, breaks, run.remaining_chars(), run)
}

/// The characters of the runs from `from` on, one run after the other.
pub open spec fn section_characters<L: LineBreaker>(
    fonts: Seq<Font>,
    line_breaker: L,
    runs: Seq<RunView>,
    from: int,
) -> Seq<Character>
    decreases runs.len() - from,
{
    if from < 0 || from >= runs.len() {
        Seq::empty()
    } else {
        run_characters(
            fonts[runs[from].font_id.0 as int],
            line_breaker.breaks(runs[from]),
            runs[from],
        ) + section_characters(fonts, line_breaker, runs, from + 1)
    }
}

/// The characters of what is left of a run, read with `font` and `breaks`.
pub fn read_run(font: &Font, breaks: &Vec<LineBreak>, run: &GlyphInfo) -> (r: Vec<Character>)
    ensures
        r@ == run_characters(*font, breaks@, run@),
{
    let chars = run.remaining_chars();
    place_chars(font, breaks, &chars, run)
}

/// The characters `chars` of `run`, read with `font` and `breaks`: each with
/// its glyph at the run's scale, its kerning, and the break just after it.
/// The run gives scale, colour and font; its text is not read.
pub fn place_chars(font: &Font, breaks: &Vec<LineBreak>, chars: &Vec<char>, run: &GlyphInfo) -> (r:
    Vec<Character>)
    ensures
        r@ == placed_characters(*font, breaks@, chars@, run@),
{
    let v_metrics = font.v_metrics(run.scale);
    let mut out: Vec<Character> = Vec::new();
    let mut last_glyph: Option<GlyphId> = None;
    let mut end: usize = 0;
    let mut next: usize = 0;
    let mut k: usize = 0;
    while k < chars.len()
        invariant
            k <= chars.len(),
            v_metrics == font.spec_v_metrics(run.scale),
            next <= breaks.len(),
            end == byte_offset(chars@, k as int),
            last_glyph == glyph_before(*font, chars@, k as int),
            forall|j: int| 0 <= j < next ==> breaks@[j].spec_offset() < byte_offset(chars@, k + 1),
            out@ == placed_characters(*font, breaks@, chars@, run@).take(k as int),
        decreases chars.len() - k,
    {
        let c = chars[k];
        end = end.saturating_add(char_len_utf8(c));
        next = advance_to(breaks, next, end);
        let line_break = if next < breaks.len() && breaks[next].offset() == end {
            Some(breaks[next])
        } else {
            None
        };
        let character = if char_is_control(c) {
            Character {
                glyph: None,
                kerning: 0,
                v_metrics,
                color: run.color,
                font_id: run.font_id,
                line_break,
            }
        } else {
            let metrics = font.glyph(c);
            let kerning = match last_glyph {
                Some(before) => font.pair_kerning(run.scale, before, metrics.id),
                None => 0,
            };
            last_glyph = Some(metrics.id);
            Character {
                glyph: Some(metrics.scaled(run.scale)),
                kerning,
                v_metrics,
                color: run.color,
                font_id: run.font_id,
                line_break,
            }
        };
        out.push(character);
        proof {
            lemma_byte_offset_monotonic(chars@, k + 1, k + 2);
        }
        k += 1;
    }
    assert(placed_characters(*font, breaks@, chars@, run@).take(k as int) == placed_characters(
        *font,
        breaks@,
        chars@,
        run@,
    ));
    out
}

/// A word: the glyphs up to and with a line break, placed from left to right
/// from (0, 0). A line takes a word whole or not at all.
#[derive(Clone, Debug)]
pub struct Word {
    pub glyphs: Vec<(RelativePositionedGlyph, Color, FontId)>,
    /// The box of the last glyph that draws anything, if there is one.
    pub bounds: Option<Rect>,
    /// The width that the word takes on its line, with the space after it.
    pub layout_width: i64,
    /// The vertical metrics of the glyph with the greatest ascent.
    pub max_v_metrics: VMetrics,
    /// Whether the line must end after this word.
    pub hard_break: bool,
}

/// What a `Word` holds, with its glyphs as a sequence.
pub struct WordView {
    pub glyphs: Seq<(RelativePositionedGlyph, Color, FontId)>,
    pub bounds: Option<Rect>,
    pub layout_width: i64,
    pub max_v_metrics: VMetrics,
    pub hard_break: bool,
}

impl View for Word {
    type V = WordView;

    open spec fn view(&self) -> WordView {
        WordView {
            glyphs: self.glyphs@,
            bounds: self.bounds,
            layout_width: self.layout_width,
            max_v_metrics: self.max_v_metrics,
            hard_break: self.hard_break,
        }
    }
}

/// The word without any character.
pub open spec fn empty_word() -> WordView {
    WordView {
        glyphs: Seq::empty(),
        bounds: None,
        layout_width: 0,
        max_v_metrics: zero_v_metrics(),
        hard_break: false,
    }
}

/// Whether the line must end after `c`.
pub open spec fn ends_line(c: Character) -> bool {
    match c.line_break {
        Some(b) => b.is_hard(),
        None => false,
    }
}

/// The word `w` with the character `c` added at its end. A control character
/// adds no glyph and no width. A glyph stands at the end of the word so far,
/// moved by its kerning unless it is the first; the word's vertical metrics
/// become those of the glyph if its ascent is greater.
pub open spec fn word_with(w: WordView, c: Character) -> WordView {
    match c.glyph {
        None => WordView { hard_break: ends_line(c), ..w },
        Some(glyph) => {
            let x = if w.glyphs.len() == 0 {
                w.layout_width
            } else {
                clamp(w.layout_width + c.kerning)
            };
            let placed = RelativePositionedGlyph { relative: Point { x, y: 0 }, glyph };
            WordView {
                glyphs: w.glyphs.push((placed, c.color, c.font_id)),
                bounds: match placed.spec_bounds() {
                    Some(b) => Some(b),
                    None => w.bounds,
                },
                layout_width: clamp(x + glyph.advance_width),
                max_v_metrics: if c.v_metrics.ascent > w.max_v_metrics.ascent {
                    c.v_metrics
                } else {
                    w.max_v_metrics
                },
                hard_break: ends_line(c),
            }
        },
    }
}

/// The word made of the first `n` of `chars`.
pub open spec fn word_of(chars: Seq<Character>, n: int) -> WordView
    decreases n,
{
    if n <= 0 {
        empty_word()
    } else {
        word_with(word_of(chars, n - 1), chars[n - 1])
    }
}

/// The number of characters in the first word of `chars`: up to and with the
/// first that has a line break after it, or all of them.
pub open spec fn word_len(chars: Seq<Character>) -> nat
    decreases chars.len(),
{
    if chars.len() == 0 {
        0
    } else if chars[0].line_break.is_some() {
        1
    } else {
        1 + word_len(chars.drop_first())
    }
}

/// The first word of `chars`.
pub open spec fn first_word(chars: Seq<Character>) -> WordView {
    word_of(chars, word_len(chars) as int)
}

/// A word is never longer than the characters it is taken from, and takes at
/// least one if there is any.
pub proof fn lemma_word_len_bounds(chars: Seq<Character>)
    ensures
        word_len(chars) <= chars.len(),
        chars.len() > 0 ==> word_len(chars) >= 1,
    decreases chars.len(),
{
    if chars.len() > 0 && !chars[0].line_break.is_some() {
        lemma_word_len_bounds(chars.drop_first());
    }
}

/// All the words of `chars`, in order.
pub open spec fn words_of(chars: Seq<Character>) -> Seq<WordView>
    decreases chars.len(),
{
    if chars.len() == 0 {
        Seq::empty()
    } else {
        proof {
            lemma_word_len_bounds(chars);
        }
        seq![first_word(chars)] + words_of(chars.skip(word_len(chars) as int))
    }
}

/// If none of the first `n` characters has a break after it, the first word
/// ends at character `n` if that one has a break or is the last, and later
/// otherwise.
pub proof fn lemma_word_len_at(chars: Seq<Character>, n: int)
    requires
        0 <= n < chars.len(),
        forall|j: int| 0 <= j < n ==> chars[j].line_break.is_none(),
    ensures
        chars[n].line_break.is_some() || n + 1 == chars.len() ==> word_len(chars) == n + 1,
        word_len(chars) >= n + 1,
    decreases n,
{
    if n == 0 {
        if !chars[0].line_break.is_some() {
            lemma_word_len_bounds(chars.drop_first());
        }
    } else {
        let rest = chars.drop_first();
        assert forall|j: int| 0 <= j < n - 1 implies rest[j].line_break.is_none() by {
            assert(rest[j] == chars[j + 1]);
        }
        lemma_word_len_at(rest, n - 1);
    }
}

/// Whether each of `glyphs` has `y` as the height of its origin.
pub open spec fn on_baseline(
    glyphs: Seq<(RelativePositionedGlyph, Color, FontId)>,
    y: i64,
) -> bool {
    forall|i: int| 0 <= i < glyphs.len() ==> (#[trigger] glyphs[i]).0.relative.y == y
}

/// In a word every glyph has its origin at height zero. The word's ascent
/// is the greatest among the runs of its glyphs, and never negative: its
/// vertical metrics are those of the run of one of its glyphs, unless no glyph
/// has an ascent above zero.
pub proof fn lemma_word_baseline(chars: Seq<Character>, n: int)
    ensures
        on_baseline(word_of(chars, n).glyphs, 0),
        word_of(chars, n).max_v_metrics.ascent >= 0,
        forall|j: int|
            0 <= j < n && (#[trigger] chars[j]).glyph.is_some() ==> chars[j].v_metrics.ascent
                <= word_of(chars, n).max_v_metrics.ascent,
        word_of(chars, n).max_v_metrics == zero_v_metrics() || exists|j: int|
            0 <= j < n && (#[trigger] chars[j]).glyph.is_some() && chars[j].v_metrics == word_of(
                chars,
                n,
            ).max_v_metrics,
    decreases n,
{
    if n > 0 {
        lemma_word_baseline(chars, n - 1);
        let before = word_of(chars, n - 1);
        if word_of(chars, n).max_v_metrics != zero_v_metrics() {
            if chars[n - 1].glyph.is_some() && chars[n - 1].v_metrics.ascent
                > before.max_v_metrics.ascent {
                assert(chars[n - 1].v_metrics == word_of(chars, n).max_v_metrics);
            } else {
                let j = choose|j: int|
                    0 <= j < n - 1 && (#[trigger] chars[j]).glyph.is_some() && chars[j].v_metrics
                        == before.max_v_metrics;
                assert(chars[j].v_metrics == word_of(chars, n).max_v_metrics);
            }
        }
    }
}

/// Whether the glyphs of `w` stand as word grouping places them: all at
/// height zero, the first at the start of the word, and the last one ending
/// where the word ends. A word in which something draws has a glyph, and a
/// word without glyphs has no width.
pub open spec fn well_placed(w: WordView) -> bool {
    &&& on_baseline(w.glyphs, 0)
    &&& w.glyphs.len() == 0 ==> w.layout_width == 0 && w.bounds.is_none()
    &&& w.glyphs.len() > 0 ==> w.glyphs[0].0.relative.x == 0 && w.layout_width
        == clamp(
        w.glyphs.last().0.relative.x + w.glyphs.last().0.glyph.advance_width,
    )
}

/// The word made of the first `n` of `chars` is well placed.
pub proof fn lemma_word_well_placed(chars: Seq<Character>, n: int)
    ensures
        well_placed(word_of(chars, n)),
    decreases n,
{
    if n > 0 {
        lemma_word_well_placed(chars, n - 1);
        lemma_word_baseline(chars, n);
    }
}

/// Each of the words of `chars` is well placed.
pub proof fn lemma_words_well_placed(chars: Seq<Character>)
    ensures
        forall|i: int|
            0 <= i < words_of(chars).len() ==> well_placed(#[trigger] words_of(chars)[i]),
    decreases chars.len(),
{
    if chars.len() > 0 {
        lemma_word_len_bounds(chars);
        lemma_word_well_placed(chars, word_len(chars) as int);
        let rest = chars.skip(word_len(chars) as int);
        lemma_words_well_placed(rest);
        assert forall|i: int| 0 <= i < words_of(chars).len() implies well_placed(
            #[trigger] words_of(chars)[i],
        ) by {
            if i > 0 {
                assert(words_of(chars)[i] == words_of(rest)[i - 1]);
            }
        }
    }
}

/// A word ends with the first character that has a break after it, and not
/// before: none of its characters but the last has a break after it, and the
/// last one has, unless the text ends with it.
pub proof fn law_word_ends_at_break(chars: Seq<Character>)
    requires
        chars.len() > 0,
    ensures
        1 <= word_len(chars) <= chars.len(),
        forall|k: int| 0 <= k < word_len(chars) - 1 ==> (#[trigger] chars[k]).line_break.is_none(),
        word_len(chars) == chars.len() || chars[word_len(chars) - 1].line_break.is_some(),
    decreases chars.len(),
{
    let rest = chars.drop_first();
    if chars[0].line_break.is_none() {
        if rest.len() == 0 {
            assert(word_len(rest) == 0);
        } else {
            law_word_ends_at_break(rest);
            assert forall|k: int| 0 <= k < word_len(chars) - 1 implies (#[trigger] chars[k])
                .line_break.is_none() by {
                if k > 0 {
                    assert(chars[k] == rest[k - 1]);
                }
            }
        }
    }
}

impl Word {
    /// The word without any character.
    pub fn new() -> (r: Word)
        ensures
            r@ == empty_word(),
    {
        Word {
            glyphs: Vec::new(),
            bounds: None,
            layout_width: 0,
            max_v_metrics: VMetrics { ascent: 0, descent: 0, line_gap: 0 },
            hard_break: false,
        }
    }

    /// Adds the character `c` at the end of the word.
    pub fn push(&mut self, c: &Character)
        ensures
            final(self)@ == word_with(old(self)@, *c),
    {
        let hard = match c.line_break {
            Some(LineBreak::Hard(_)) => true,
            _ => false,
        };
        self.hard_break = hard;
        match c.glyph {
            None => {},
            Some(glyph) => {
                let x = if self.glyphs.len() == 0 {
                    self.layout_width
                } else {
                    sat_add(self.layout_width, c.kerning)
                };
                let placed = RelativePositionedGlyph { relative: Point { x, y: 0 }, glyph };
                match placed.bounds() {
                    Some(b) => {
                        self.bounds = Some(b);
                    },
                    None => {},
                }
                self.glyphs.push((placed, c.color, c.font_id));
                self.layout_width = sat_add(x, glyph.advance_width);
                if c.v_metrics.ascent > self.max_v_metrics.ascent {
                    self.max_v_metrics = c.v_metrics;
                }
            },
        }
    }
}

/// Gives the words of a section one by one. Only the characters of the run
/// that is being read are held.
pub struct Words<'a, 'b, L: LineBreaker> {
    fonts: &'b Vec<Font>,
    runs: &'b Vec<GlyphInfo<'a>>,
    line_breaker: L,
    /// The next run to read.
    run: usize,
    /// The characters of the run that is being read.
    current: Vec<Character>,
    /// The next of `current` to take.
    next: usize,
}

impl<'a, 'b, L: LineBreaker> Words<'a, 'b, L> {
    #[verifier::type_invariant]
    spec fn well_formed(self) -> bool {
        &&& self.next <= self.current@.len()
        &&& fonts_cover(self.fonts@, run_views(self.runs@), self.run as int)
    }

    /// The characters that the words still to come are made of.
    pub closed spec fn remaining(self) -> Seq<Character> {
        self.current@.skip(self.next as int) + section_characters(
            self.fonts@,
            self.line_breaker,
            run_views(self.runs@),
            self.run as int,
        )
    }

    /// The words of the runs from `from` on, read with `fonts` and
    /// `line_breaker`.
    pub fn new(
        fonts: &'b Vec<Font>,
        runs: &'b Vec<GlyphInfo<'a>>,
        from: usize,
        line_breaker: L,
    ) -> (r: Self)
        requires
            fonts_cover(fonts@, run_views(runs@), from as int),
        ensures
            r.remaining() == section_characters(
                fonts@,
                line_breaker,
                run_views(runs@),
                from as int,
            ),
    {
        let current: Vec<Character> = Vec::new();
        assert(current@.skip(0) + section_characters(
            fonts@,
            line_breaker,
            run_views(runs@),
            from as int,
        ) == section_characters(fonts@, line_breaker, run_views(runs@), from as int));
        Words { fonts, runs, line_breaker, run: from, current, next: 0 }
    }

    /// The words of `characters`, followed by those of the runs from `from`
    /// on, read with `fonts` and `line_breaker`.
    pub fn starting_with(
        characters: Vec<Character>,
        fonts: &'b Vec<Font>,
        runs: &'b Vec<GlyphInfo<'a>>,
        from: usize,
        line_breaker: L,
    ) -> (r: Self)
        requires
            fonts_cover(fonts@, run_views(runs@), from as int),
        ensures
            r.remaining() == characters@ + section_characters(
                fonts@,
                line_breaker,
                run_views(runs@),
                from as int,
            ),
    {
        Words { fonts, runs, line_breaker, run: from, current: characters, next: 0 }
    }

    /// The next word, or `None` when no character is left.
    pub fn next(&mut self) -> (r: Option<Word>)
        ensures
            old(self).remaining().len() == 0 ==> r.is_none() && final(self).remaining().len() == 0,
            old(self).remaining().len() > 0 ==> r.is_some() && r.unwrap()@ == first_word(
                old(self).remaining(),
            ) && final(self).remaining() == old(self).remaining().skip(
                word_len(old(self).remaining()) as int,
            ),
    {
        let ghost all = self.remaining();
        let mut word = Word::new();
        let mut progress = false;
        let ghost mut n: int = 0;
        loop
            invariant_except_break
                forall|j: int| 0 <= j < n ==> all[j].line_break.is_none(),
            invariant
                0 <= n <= all.len(),
                progress <==> n > 0,
                self.remaining() == all.skip(n),
                word@ == word_of(all, n),
            ensures
                n == word_len(all),
                progress <==> n > 0,
                self.remaining() == all.skip(n),
                word@ == word_of(all, n),
            decreases self.runs@.len() - self.run, self.current@.len() - self.next,
        {
            proof {
                use_type_invariant(&*self);
            }
            if self.next >= self.current.len() {
                if self.run >= self.runs.len() {
                    proof {
                        if n > 0 {
                            lemma_word_len_at(all, n - 1);
                        }
                    }
                    break;
                }
                let info = &self.runs[self.run];
                let font = &self.fonts[info.font_id.0];
                let breaks = self.line_breaker.line_breaks(info);
                let characters = read_run(font, &breaks, info);
                let ghost before = self.remaining();
                self.next = 0;
                self.current = characters;
                self.run = self.run + 1;
                assert(self.remaining() == before);
            } else {
                let c = self.current[self.next];
                let ghost before = self.remaining();
                self.next = self.next + 1;
                proof {
                    assert(self.remaining() == before.drop_first());
                    assert(all.skip(n)[0] == all[n]);
                }
                word.push(&c);
                progress = true;
                proof {
                    n = n + 1;
                }
                if c.line_break.is_some() {
                    proof {
                        lemma_word_len_at(all, n - 1);
                    }
                    break;
                }
            }
        }
        if progress {
            Some(word)
        } else {
            None
        }
    }
}

} // verus!
