//! Where a run of text may or must be broken into lines.

use crate::section::{GlyphInfo, RunView};
use crate::text::{
    byte_len, byte_offset, char_len_utf8, lemma_byte_offset_monotonic, unicode_breaks,
    unicode_line_breaks,
};
use std::collections::hash_map::DefaultHasher;
use std::hash::Hasher;
use vstd::prelude::*;
use vstd::string::StringSliceAdditionalSpecFns;

verus! {

/// A place where a line may end (soft) or must end (hard). The offset is the
/// byte index just after the breaking character, within what is left of the
/// run.
#[derive(Debug, Clone, Copy, PartialEq, Eq, Hash, Structural)]
pub enum LineBreak {
    /// A line may end here.
    Soft(usize),
    /// A line must end here.
    Hard(usize),
}

impl LineBreak {
    /// The byte index just after the breaking character.
    pub open spec fn spec_offset(self) -> usize {
        match self {
            LineBreak::Soft(offset) => offset,
            LineBreak::Hard(offset) => offset,
        }
    }

    /// Whether a line must end here.
    pub open spec fn is_hard(self) -> bool {
        self is Hard
    }

    /// The byte index just after the breaking character.
    pub fn offset(&self) -> (r: usize)
        ensures
            r == self.spec_offset(),
    {
        match *self {
            LineBreak::Soft(offset) => offset,
            LineBreak::Hard(offset) => offset,
        }
    }
}

/// Whether the offsets of `breaks` never go back.
pub open spec fn in_order(breaks: Seq<LineBreak>) -> bool {
    forall|i: int, j: int|
        0 <= i <= j < breaks.len() ==> breaks[i].spec_offset() <= breaks[j].spec_offset()
}

/// A strategy that finds the line breaks of a run. The same run always gives
/// the same breaks: a layout may be kept and used again for an equal section.
/// That a line may end where the text ends goes without saying: a strategy
/// reports the end of the text only where a line must end there.
pub trait LineBreaker: Copy {
    /// The breaks in what is left of `run`, in the order of the text.
    spec fn breaks(&self, run: RunView) -> Seq<LineBreak>;

    /// What the strategy adds to a key under which a layout is kept.
    spec fn key_bytes(&self) -> Seq<Seq<u8>>;

    /// The breaks in what is left of the run, in the order of the text.
    fn line_breaks(&self, glyph_info: &GlyphInfo) -> (r: Vec<LineBreak>)
        ensures
            r@ == self.breaks(glyph_info@),
            in_order(r@),
    ;

    /// Feeds `state` what tells this strategy apart from others.
    fn write_key(&self, state: &mut DefaultHasher)
        ensures
            final(state)@ == old(state)@ + self.key_bytes(),
    ;
}

/// The two strategies that come with the library. Neither reports a soft
/// break at the end of the text.
#[derive(Debug, Clone, Copy, Hash, PartialEq, Eq, Structural)]
pub enum BuiltInLineBreaker {
    /// Breaks where the Unicode line breaking algorithm allows or demands it.
    StandardLineBreaker,
    /// Allows a break after every character; the mandatory breaks of the
    /// Unicode algorithm stay mandatory.
    AnyCharLineBreaker,
}

impl Default for BuiltInLineBreaker {
    fn default() -> (r: Self)
        ensures
            r == BuiltInLineBreaker::StandardLineBreaker,
    {
        BuiltInLineBreaker::StandardLineBreaker
    }
}

/// One break of the Unicode algorithm as a `LineBreak`.
pub open spec fn to_line_break(found: (usize, bool)) -> LineBreak {
    if found.1 {
        LineBreak::Hard(found.0)
    } else {
        LineBreak::Soft(found.0)
    }
}

/// The breaks of the standard strategy, given those that the Unicode
/// algorithm found.
pub open spec fn standard_breaks(found: Seq<(usize, bool)>) -> Seq<LineBreak> {
    Seq::new(found.len(), |i: int| to_line_break(found[i]))
}

/// `breaks` without a soft break at `end`, the end of the text, as their
/// last: the text ends there anyway.
pub open spec fn without_soft_end(breaks: Seq<LineBreak>, end: usize) -> Seq<LineBreak> {
    if breaks.len() > 0 && breaks.last() == LineBreak::Soft(end) {
        breaks.drop_last()
    } else {
        breaks
    }
}

/// Whether each of `breaks` lies behind the first byte of the text and not
/// behind its end, `end` bytes on.
pub open spec fn within_text(breaks: Seq<LineBreak>, end: nat) -> bool {
    forall|i: int| 0 <= i < breaks.len() ==> 1 <= (#[trigger] breaks[i]).spec_offset() <= end
}

/// The first of `breaks` whose offset is `at` or later.
pub open spec fn first_reaching(breaks: Seq<LineBreak>, at: usize) -> Option<LineBreak>
    decreases breaks.len(),
{
    if breaks.len() == 0 {
        None
    } else if breaks[0].spec_offset() >= at {
        Some(breaks[0])
    } else {
        first_reaching(breaks.drop_first(), at)
    }
}

/// The break just after a character that ends at byte offset `end`: the
/// first of `breaks` to reach `end`, if it lies exactly there.
pub open spec fn break_after(breaks: Seq<LineBreak>, end: usize) -> Option<LineBreak> {
    match first_reaching(breaks, end) {
        Some(b) => if b.spec_offset() == end {
            Some(b)
        } else {
            None
        },
        None => None,
    }
}

/// Where the breaks are in order, a character has a break after it if and
/// only if one of the breaks lies at its end; it is the first of those.
pub proof fn law_break_after(breaks: Seq<LineBreak>, end: usize)
    requires
        in_order(breaks),
    ensures
        break_after(breaks, end).is_some() <==> exists|i: int|
            0 <= i < breaks.len() && (#[trigger] breaks[i]).spec_offset() == end,
        break_after(breaks, end).is_some() ==> exists|i: int|
            0 <= i < breaks.len() && #[trigger] breaks[i] == break_after(breaks, end).unwrap()
                && forall|j: int| 0 <= j < i ==> (#[trigger] breaks[j]).spec_offset() < end,
    decreases breaks.len(),
{
    if breaks.len() > 0 {
        let rest = breaks.drop_first();
        assert forall|i: int, j: int| 0 <= i <= j < rest.len() implies rest[i].spec_offset()
            <= rest[j].spec_offset() by {
            assert(rest[i] == breaks[i + 1] && rest[j] == breaks[j + 1]);
        }
        law_break_after(rest, end);
        if breaks[0].spec_offset() > end {
            assert forall|i: int| 0 <= i < breaks.len() implies (#[trigger] breaks[i]).spec_offset()
                != end by {
                assert(breaks[0].spec_offset() <= breaks[i].spec_offset());
            }
        } else if breaks[0].spec_offset() < end {
            assert forall|i: int| 0 < i < breaks.len() implies #[trigger] breaks[i] == rest[i
                - 1] by {}
            if break_after(rest, end).is_some() {
                let i = choose|i: int|
                    0 <= i < rest.len() && #[trigger] rest[i] == break_after(rest, end).unwrap()
                        && forall|j: int| 0 <= j < i ==> (#[trigger] rest[j]).spec_offset() < end;
                assert(breaks[i + 1] == rest[i]);
            }
        }
    }
}

/// Whether each of `breaks` lies further on in the text than the one before
/// it.
pub open spec fn strictly_in_order(breaks: Seq<LineBreak>) -> bool {
    forall|i: int, j: int|
        0 <= i < j < breaks.len() ==> breaks[i].spec_offset() < breaks[j].spec_offset()
}

/// The break that the any-character strategy puts at byte offset `at`, the
/// end of a character: hard if the standard break there is hard, and soft
/// otherwise.
pub open spec fn any_char_break(standard: Seq<LineBreak>, at: usize) -> LineBreak {
    if break_after(standard, at) == Some(LineBreak::Hard(at)) {
        LineBreak::Hard(at)
    } else {
        LineBreak::Soft(at)
    }
}

/// The any-character strategy makes the end of a character a hard break if
/// and only if a hard break of the standard strategy lies there, where the
/// standard breaks lie one after the other in the text.
pub proof fn law_any_char_hard(standard: Seq<LineBreak>, at: usize)
    requires
        strictly_in_order(standard),
    ensures
        any_char_break(standard, at) == LineBreak::Hard(at) <==> exists|i: int|
            0 <= i < standard.len() && #[trigger] standard[i] == LineBreak::Hard(at),
        any_char_break(standard, at) == LineBreak::Soft(at) <==> !exists|i: int|
            0 <= i < standard.len() && #[trigger] standard[i] == LineBreak::Hard(at),
{
    law_break_after(standard, at);
    if break_after(standard, at).is_some() {
        let first = choose|i: int|
            0 <= i < standard.len() && #[trigger] standard[i] == break_after(standard, at).unwrap()
                && forall|j: int| 0 <= j < i ==> (#[trigger] standard[j]).spec_offset() < at;
        assert forall|i: int|
            0 <= i < standard.len() && #[trigger] standard[i] == LineBreak::Hard(
                at,
            ) implies i == first by {
            if i < first {
                assert(standard[i].spec_offset() < at);
            } else if i > first {
                assert(standard[first].spec_offset() < standard[i].spec_offset());
            }
        }
    } else {
        assert forall|i: int| 0 <= i < standard.len() implies #[trigger] standard[i]
            != LineBreak::Hard(at) by {
            assert(standard[i].spec_offset() != at);
        }
    }
}

/// The breaks of the any-character strategy: one after each of `chars`,
/// given the breaks of the standard strategy.
pub open spec fn any_char_breaks(chars: Seq<char>, standard: Seq<LineBreak>) -> Seq<LineBreak> {
    Seq::new(chars.len(), |k: int| any_char_break(standard, byte_offset(chars, k + 1)))
}

/// Passing over breaks that all lie before `at` does not change which break
/// is the first to reach `at`.
pub proof fn lemma_first_reaching_skip(breaks: Seq<LineBreak>, at: usize, n: int)
    requires
        0 <= n <= breaks.len(),
        forall|j: int| 0 <= j < n ==> breaks[j].spec_offset() < at,
    ensures
        first_reaching(breaks, at) == first_reaching(breaks.skip(n), at),
        n == breaks.len() ==> first_reaching(breaks, at).is_none(),
        n < breaks.len() && breaks[n].spec_offset() >= at ==> first_reaching(breaks, at) == Some(
            breaks[n],
        ),
    decreases n,
{
    if n == 0 {
        assert(breaks.skip(0) == breaks);
    } else {
        let rest = breaks.drop_first();
        assert forall|j: int| 0 <= j < n - 1 implies rest[j].spec_offset() < at by {
            assert(rest[j] == breaks[j + 1]);
        }
        lemma_first_reaching_skip(rest, at, n - 1);
        assert(rest.skip(n - 1) == breaks.skip(n));
    }
}

/// The index of the first of `breaks`, from `from` on, whose offset is `at`
/// or later; the number of breaks if there is none.
pub(crate) fn advance_to(breaks: &Vec<LineBreak>, from: usize, at: usize) -> (next: usize)
    requires
        from <= breaks.len(),
        forall|j: int| 0 <= j < from ==> breaks@[j].spec_offset() < at,
    ensures
        from <= next <= breaks.len(),
        forall|j: int| 0 <= j < next ==> breaks@[j].spec_offset() < at,
        next < breaks.len() ==> breaks@[next as int].spec_offset() >= at,
        first_reaching(breaks@, at) == if next < breaks.len() {
            Some(breaks@[next as int])
        } else {
            None
        },
{
    let mut next: usize = from;
    while next < breaks.len() && breaks[next].offset() < at
        invariant
            from <= next <= breaks.len(),
            forall|j: int| 0 <= j < next ==> breaks@[j].spec_offset() < at,
        decreases breaks.len() - next,
    {
        next += 1;
    }
    proof {
        lemma_first_reaching_skip(breaks@, at, next as int);
    }
    next
}

/// The breaks of the standard strategy, given those that the Unicode
/// algorithm found.
pub fn standard_line_breaks(found: &Vec<(usize, bool)>) -> (r: Vec<LineBreak>)
    ensures
        r@ == standard_breaks(found@),
{
    let mut out: Vec<LineBreak> = Vec::new();
    let mut i: usize = 0;
    while i < found.len()
        invariant
            i <= found.len(),
            out@ == standard_breaks(found@).take(i as int),
        decreases found.len() - i,
    {
        let (offset, hard) = found[i];
        out.push(
            if hard {
                LineBreak::Hard(offset)
            } else {
                LineBreak::Soft(offset)
            },
        );
        i += 1;
    }
    out
}

/// The standard breaks lie one after the other within the text where those
/// that were found do.
pub proof fn lemma_standard_in_order(found: Seq<(usize, bool)>, end: nat)
    requires
        forall|i: int, j: int| 0 <= i < j < found.len() ==> found[i].0 < found[j].0,
        forall|i: int| 0 <= i < found.len() ==> 1 <= (#[trigger] found[i]).0 <= end,
    ensures
        strictly_in_order(standard_breaks(found)),
        in_order(standard_breaks(found)),
        within_text(standard_breaks(found), end),
{
    let breaks = standard_breaks(found);
    assert forall|i: int, j: int| 0 <= i < j < breaks.len() implies breaks[i].spec_offset()
        < breaks[j].spec_offset() by {
        assert(breaks[i].spec_offset() == found[i].0 && breaks[j].spec_offset() == found[j].0);
    }
    assert forall|i: int| 0 <= i < breaks.len() implies 1 <= (#[trigger] breaks[i]).spec_offset()
        <= end by {
        assert(breaks[i].spec_offset() == found[i].0);
    }
}

/// The any-character strategy makes the end of each character a hard break
/// if and only if a hard break of the standard strategy lies there, where the
/// standard breaks lie one after the other in the text.
pub proof fn law_any_char_follows_standard(chars: Seq<char>, standard: Seq<LineBreak>, k: int)
    requires
        strictly_in_order(standard),
        0 <= k < chars.len(),
    ensures
        any_char_breaks(chars, standard)[k].spec_offset() == byte_offset(chars, k + 1),
        any_char_breaks(chars, standard)[k].is_hard() <==> exists|i: int|
            0 <= i < standard.len() && #[trigger] standard[i] == LineBreak::Hard(
                byte_offset(chars, k + 1),
            ),
{
    law_any_char_hard(standard, byte_offset(chars, k + 1));
}

/// The breaks of the any-character strategy are in order: a character never
/// ends before the one in front of it.
pub proof fn lemma_any_char_in_order(chars: Seq<char>, standard: Seq<LineBreak>)
    ensures
        in_order(any_char_breaks(chars, standard)),
{
    let breaks = any_char_breaks(chars, standard);
    assert forall|i: int, j: int| 0 <= i <= j < breaks.len() implies breaks[i].spec_offset()
        <= breaks[j].spec_offset() by {
        lemma_byte_offset_monotonic(chars, i + 1, j + 1);
    }
}

/// The length of `chars` in bytes: the offset at which the last of them
/// ends.
pub fn end_of(chars: &Vec<char>) -> (end: usize)
    ensures
        end == byte_offset(chars@, chars@.len() as int),
{
    let mut end: usize = 0;
    let mut k: usize = 0;
    while k < chars.len()
        invariant
            k <= chars.len(),
            end == byte_offset(chars@, k as int),
        decreases chars.len() - k,
    {
        end = end.saturating_add(char_len_utf8(chars[k]));
        k += 1;
    }
    end
}

/// The breaks of the any-character strategy: one after each of `chars`,
/// given the breaks of the standard strategy.
pub fn any_char_line_breaks(chars: &Vec<char>, standard: &Vec<LineBreak>) -> (r: Vec<LineBreak>)
    ensures
        r@ == any_char_breaks(chars@, standard@),
{
    let mut out: Vec<LineBreak> = Vec::new();
    let mut k: usize = 0;
    let mut end: usize = 0;
    let mut next: usize = 0;
    while k < chars.len()
        invariant
            k <= chars.len(),
            next <= standard.len(),
            end == byte_offset(chars@, k as int),
            forall|j: int|
                0 <= j < next ==> standard@[j].spec_offset() < byte_offset(chars@, k + 1),
            out@ == any_char_breaks(chars@, standard@).take(k as int),
        decreases chars.len() - k,
    {
        end = end.saturating_add(char_len_utf8(chars[k]));
        next = advance_to(standard, next, end);
        let hard = next < standard.len() && match standard[next] {
            LineBreak::Hard(offset) => offset == end,
            LineBreak::Soft(_) => false,
        };
        out.push(
            if hard {
                LineBreak::Hard(end)
            } else {
                LineBreak::Soft(end)
            },
        );
        proof {
            lemma_byte_offset_monotonic(chars@, k + 1, k + 2);
        }
        k += 1;
    }
    out
}

/// `breaks` without a soft break at `end`, the end of the text, as their
/// last.
pub fn drop_soft_end(breaks: Vec<LineBreak>, end: usize) -> (r: Vec<LineBreak>)
    ensures
        r@ == without_soft_end(breaks@, end),
{
    let mut breaks = breaks;
    let n = breaks.len();
    let soft_end = n > 0 && match breaks[n - 1] {
        LineBreak::Soft(offset) => offset == end,
        LineBreak::Hard(_) => false,
    };
    if soft_end {
        breaks.pop();
    }
    breaks
}

/// Leaving out the last break keeps the others in order and within the
/// text.
pub proof fn lemma_without_soft_end_in_order(breaks: Seq<LineBreak>, end: usize)
    ensures
        in_order(breaks) ==> in_order(without_soft_end(breaks, end)),
        strictly_in_order(breaks) ==> strictly_in_order(without_soft_end(breaks, end)),
        forall|len: nat| within_text(breaks, len) ==> within_text(without_soft_end(breaks, end), len),
{
}

impl LineBreaker for BuiltInLineBreaker {
    open spec fn breaks(&self, run: RunView) -> Seq<LineBreak> {
        let standard = standard_breaks(unicode_breaks(run.remaining_text()));
        match *self {
            BuiltInLineBreaker::StandardLineBreaker => without_soft_end(
                standard,
                byte_len(run.remaining_text()) as usize,
            ),
            BuiltInLineBreaker::AnyCharLineBreaker => without_soft_end(
                any_char_breaks(run.remaining_chars(), standard),
                byte_offset(run.remaining_chars(), run.remaining_chars().len() as int),
            ),
        }
    }

    open spec fn key_bytes(&self) -> Seq<Seq<u8>> {
        match *self {
            BuiltInLineBreaker::StandardLineBreaker => seq![seq![0u8]],
            BuiltInLineBreaker::AnyCharLineBreaker => seq![seq![1u8]],
        }
    }

    /// The breaks of the strategy. The standard breaks of the text, which
    /// both strategies start from, lie one after the other between the first
    /// byte of the text and its end; so do the breaks that the standard
    /// strategy gives.
    fn line_breaks(&self, glyph_info: &GlyphInfo) -> (r: Vec<LineBreak>)
        ensures
            strictly_in_order(standard_breaks(unicode_breaks(glyph_info@.remaining_text()))),
            within_text(
                standard_breaks(unicode_breaks(glyph_info@.remaining_text())),
                byte_len(glyph_info@.remaining_text()),
            ),
            *self == BuiltInLineBreaker::StandardLineBreaker ==> strictly_in_order(r@)
                && within_text(r@, byte_len(glyph_info@.remaining_text())),
    {
        let text = glyph_info.substring();
        let found = unicode_line_breaks(text);
        let standard = standard_line_breaks(&found);
        proof {
            lemma_standard_in_order(found@, byte_len(text@));
        }
        match *self {
            BuiltInLineBreaker::StandardLineBreaker => {
                proof {
                    lemma_without_soft_end_in_order(standard@, byte_len(text@) as usize);
                }
                drop_soft_end(standard, text.len())
            },
            BuiltInLineBreaker::AnyCharLineBreaker => {
                let chars = glyph_info.remaining_chars();
                let breaks = any_char_line_breaks(&chars, &standard);
                let end = end_of(&chars);
                proof {
                    lemma_any_char_in_order(chars@, standard@);
                    lemma_without_soft_end_in_order(breaks@, end);
                }
                drop_soft_end(breaks, end)
            },
        }
    }

    fn write_key(&self, state: &mut DefaultHasher) {
        let code: u8 = match *self {
            BuiltInLineBreaker::StandardLineBreaker => 0,
            BuiltInLineBreaker::AnyCharLineBreaker => 1,
        };
        let mut bytes: Vec<u8> = Vec::new();
        bytes.push(code);
        state.write(bytes.as_slice());
    }
}

} // verus!
