//! A single line and a page of lines, from words to glyphs on the screen.

use crate::font::{FontId, PositionedGlyph};
use crate::geometry::{clamp, sat_add, Point};
use crate::layout::lines::{
    aligned, first_line, lemma_line_len_bounds, line_len, LineView, Lines,
};
use crate::layout::words::{words_of, WordView, Words};
use crate::layout::{HorizontalAlign, VerticalAlign};
use crate::linebreak::LineBreaker;
use crate::section::Color;
use vstd::prelude::*;

verus! {

/// The glyphs of the first line of `words` on the screen, if there is a
/// word.
pub open spec fn single_line_glyphs(
    words: Seq<WordView>,
    screen_position: Point,
    bound_w: i64,
    h_align: HorizontalAlign,
    v_align: VerticalAlign,
) -> Option<Seq<(PositionedGlyph, Color, FontId)>> {
    if words.len() == 0 {
        None
    } else {
        Some(aligned(first_line(words, bound_w), screen_position, h_align, v_align))
    }
}

/// The glyphs of all the lines of `words` on the screen: the first line at
/// `caret`, each further line lower by the height of the line above it.
pub open spec fn page_glyphs(
    words: Seq<WordView>,
    caret: Point,
    bound_w: i64,
    h_align: HorizontalAlign,
    v_align: VerticalAlign,
) -> Seq<(PositionedGlyph, Color, FontId)>
    decreases words.len(),
{
    if words.len() == 0 {
        Seq::empty()
    } else {
        proof {
            lemma_line_len_bounds(words, bound_w, 0);
        }
        let line = first_line(words, bound_w);
        aligned(line, caret, h_align, v_align) + page_glyphs(
            words.skip(line_len(words, bound_w)),
            below(caret, line),
            bound_w,
            h_align,
            v_align,
        )
    }
}

/// Where the line under a line at `caret` starts: lower by the height of
/// `line`.
pub open spec fn below(caret: Point, line: LineView) -> Point {
    Point { x: caret.x, y: clamp(caret.y + line.max_v_metrics.spec_line_height()) }
}

/// The words that are left of `words` after `k` lines, or after all the
/// lines there are if these are fewer.
pub open spec fn words_after(words: Seq<WordView>, bound_w: i64, k: int) -> Seq<WordView>
    decreases k,
{
    if k <= 0 || words.len() == 0 {
        words
    } else {
        words_after(words.skip(line_len(words, bound_w)), bound_w, k - 1)
    }
}

/// Where line `k` of a page starts whose first line starts at `caret`: lower
/// by the heights of the `k` lines above it.
pub open spec fn caret_after(words: Seq<WordView>, caret: Point, bound_w: i64, k: int) -> Point
    decreases k,
{
    if k <= 0 || words.len() == 0 {
        caret
    } else {
        caret_after(
            words.skip(line_len(words, bound_w)),
            below(caret, first_line(words, bound_w)),
            bound_w,
            k - 1,
        )
    }
}

/// The glyphs of the first `k` lines of a page on the screen.
pub open spec fn lines_glyphs(
    words: Seq<WordView>,
    caret: Point,
    bound_w: i64,
    h_align: HorizontalAlign,
    v_align: VerticalAlign,
    k: int,
) -> Seq<(PositionedGlyph, Color, FontId)>
    decreases k,
{
    if k <= 0 || words.len() == 0 {
        Seq::empty()
    } else {
        aligned(first_line(words, bound_w), caret, h_align, v_align) + lines_glyphs(
            words.skip(line_len(words, bound_w)),
            below(caret, first_line(words, bound_w)),
            bound_w,
            h_align,
            v_align,
            k - 1,
        )
    }
}

/// A page is its lines one under the other. After the glyphs of its first
/// `k` lines come those of line `k`, the first line of the words that are
/// left, aligned at the place where line `k` starts; each line starts lower
/// than the line above it by that line's height, and takes up the words
/// where that line ended.
pub proof fn law_page_lines(
    words: Seq<WordView>,
    caret: Point,
    bound_w: i64,
    h_align: HorizontalAlign,
    v_align: VerticalAlign,
    k: int,
)
    requires
        0 <= k,
    ensures
        page_glyphs(words, caret, bound_w, h_align, v_align) == lines_glyphs(
            words,
            caret,
            bound_w,
            h_align,
            v_align,
            k,
        ) + page_glyphs(
            words_after(words, bound_w, k),
            caret_after(words, caret, bound_w, k),
            bound_w,
            h_align,
            v_align,
        ),
        words_after(words, bound_w, k).len() > 0 ==> {
            let left = words_after(words, bound_w, k);
            let at = caret_after(words, caret, bound_w, k);
            &&& page_glyphs(left, at, bound_w, h_align, v_align) == aligned(
                first_line(left, bound_w),
                at,
                h_align,
                v_align,
            ) + page_glyphs(
                words_after(words, bound_w, k + 1),
                caret_after(words, caret, bound_w, k + 1),
                bound_w,
                h_align,
                v_align,
            )
            &&& words_after(words, bound_w, k + 1) == left.skip(line_len(left, bound_w))
            &&& caret_after(words, caret, bound_w, k + 1) == below(at, first_line(left, bound_w))
        },
    decreases k,
{
    let all = page_glyphs(words, caret, bound_w, h_align, v_align);
    if k == 0 || words.len() == 0 {
        assert(lines_glyphs(words, caret, bound_w, h_align, v_align, k) + all == all);
        if words.len() > 0 {
            assert(words_after(words, bound_w, 1) == words_after(
                words.skip(line_len(words, bound_w)),
                bound_w,
                0,
            ));
            assert(caret_after(words, caret, bound_w, 1) == caret_after(
                words.skip(line_len(words, bound_w)),
                below(caret, first_line(words, bound_w)),
                bound_w,
                0,
            ));
        }
    } else {
        let rest = words.skip(line_len(words, bound_w));
        let under = below(caret, first_line(words, bound_w));
        law_page_lines(rest, under, bound_w, h_align, v_align, k - 1);
        let first = aligned(first_line(words, bound_w), caret, h_align, v_align);
        let more = lines_glyphs(rest, under, bound_w, h_align, v_align, k - 1);
        let tail = page_glyphs(
            words_after(rest, bound_w, k - 1),
            caret_after(rest, under, bound_w, k - 1),
            bound_w,
            h_align,
            v_align,
        );
        assert(first + (more + tail) == (first + more) + tail);
        assert(words_after(words, bound_w, k + 1) == words_after(rest, bound_w, k));
        assert(caret_after(words, caret, bound_w, k + 1) == caret_after(rest, under, bound_w, k));
    }
}

/// The first line of `words` on the screen, or `None` if there is no word.
/// What does not fit on the line is left out.
pub fn single_line<L: LineBreaker>(
    words: Words<'_, '_, L>,
    screen_position: Point,
    bound_w: i64,
    h_align: HorizontalAlign,
    v_align: VerticalAlign,
) -> (r: Option<Vec<(PositionedGlyph, Color, FontId)>>)
    ensures
        match single_line_glyphs(
            words_of(words.remaining()),
            screen_position,
            bound_w,
            h_align,
            v_align,
        ) {
            Some(glyphs) => r.is_some() && r.unwrap()@ == glyphs,
            None => r.is_none(),
        },
{
    let mut lines = Lines::new(words, bound_w);
    match lines.next() {
        Some(line) => Some(line.aligned_on_screen(screen_position, h_align, v_align)),
        None => None,
    }
}

/// All the lines of `words` on the screen, one under the other from
/// `screen_position` down.
pub fn page<L: LineBreaker>(
    words: Words<'_, '_, L>,
    screen_position: Point,
    bound_w: i64,
    h_align: HorizontalAlign,
    v_align: VerticalAlign,
) -> (r: Vec<(PositionedGlyph, Color, FontId)>)
    ensures
        r@ == page_glyphs(words_of(words.remaining()), screen_position, bound_w, h_align, v_align),
{
    let ghost all = words_of(words.remaining());
    let mut lines = Lines::new(words, bound_w);
    let mut out: Vec<(PositionedGlyph, Color, FontId)> = Vec::new();
    let mut caret = screen_position;
    assert(out@ + page_glyphs(all, caret, bound_w, h_align, v_align) == page_glyphs(
        all,
        caret,
        bound_w,
        h_align,
        v_align,
    ));
    loop
        invariant
            lines.bound() == bound_w,
            out@ + page_glyphs(lines.pending(), caret, bound_w, h_align, v_align) == page_glyphs(
                all,
                screen_position,
                bound_w,
                h_align,
                v_align,
            ),
        ensures
            out@ == page_glyphs(all, screen_position, bound_w, h_align, v_align),
        decreases lines.pending().len(),
    {
        let ghost pending = lines.pending();
        let ghost done = out@;
        proof {
            lemma_line_len_bounds(pending, bound_w, 0);
        }
        match lines.next() {
            None => {
                break;
            },
            Some(line) => {
                let height = line.line_height();
                let mut glyphs = line.aligned_on_screen(caret, h_align, v_align);
                let ghost placed = glyphs@;
                out.append(&mut glyphs);
                caret = Point { x: caret.x, y: sat_add(caret.y, height) };
                assert((done + placed) + page_glyphs(
                    lines.pending(),
                    caret,
                    bound_w,
                    h_align,
                    v_align,
                ) == done + (placed + page_glyphs(
                    lines.pending(),
                    caret,
                    bound_w,
                    h_align,
                    v_align,
                )));
            },
        }
    }
    out
}

} // verus!
