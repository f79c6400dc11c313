//! Sections of text runs, and the cursor that layout moves over them.

use crate::font::{Font, FontId, Scale};
use crate::geometry::{Bounds, Point};
use crate::layout::Layout;
use crate::linebreak::BuiltInLineBreaker;
use crate::text::{byte_offset, char_len_utf8, nfc, nfc_chars, skip_up_to};
use vstd::prelude::*;
use vstd::string::StrSliceExecFns;

verus! {

/// A colour, carried from a run to each of its glyphs.
#[derive(Clone, Copy, Debug, PartialEq, Eq, Hash, Structural)]
pub struct Color {
    pub r: u8,
    pub g: u8,
    pub b: u8,
    pub a: u8,
}

/// A run: text that shares one font, scale and colour.
#[derive(Clone, Copy, Debug, PartialEq, Eq, Hash)]
pub struct SectionText<'a> {
    pub text: &'a str,
    pub scale: Scale,
    pub color: Color,
    pub font_id: FontId,
}

/// A request for layout: runs of text with a place on the screen, the box
/// they may fill, and the layout to use.
#[derive(Clone, Debug, PartialEq, Eq, Hash)]
pub struct VariedSection<'a> {
    /// Where to put the text, from the top left of the screen.
    pub screen_position: Point,
    /// The box that the text may fill, from the screen position.
    pub bounds: Bounds,
    /// The depth at which the text is drawn.
    pub z: i32,
    pub layout: Layout<BuiltInLineBreaker>,
    pub text: Vec<SectionText<'a>>,
}

/// A run together with the number of its characters that earlier passes have
/// laid out already.
#[derive(Clone, Copy, Debug)]
pub struct GlyphInfo<'a> {
    pub text: &'a str,
    /// Characters, not bytes, to pass over.
    pub skip: usize,
    pub scale: Scale,
    pub color: Color,
    pub font_id: FontId,
}

/// What a `GlyphInfo` holds, with the text as its characters.
pub struct RunView {
    pub text: Seq<char>,
    pub skip: usize,
    pub scale: Scale,
    pub color: Color,
    pub font_id: FontId,
}

/// A section as layout reads it: what is still to lay out. The runs before
/// `text_index` are done; the run at `text_index` may be partly done, as its
/// `skip` tells.
#[derive(Clone, Debug)]
pub struct SectionGlyphInfo<'a> {
    /// Where to put the text, from the top left of the screen.
    pub screen_position: Point,
    /// The box that the text may fill, from the screen position.
    pub bounds: Bounds,
    pub text: Vec<GlyphInfo<'a>>,
    pub text_index: usize,
}

/// What a `SectionGlyphInfo` holds, with each run as its view.
pub struct SectionView {
    pub screen_position: Point,
    pub bounds: Bounds,
    pub text: Seq<RunView>,
    pub text_index: usize,
}

/// The view of each of `runs`.
pub open spec fn run_views(runs: Seq<GlyphInfo>) -> Seq<RunView> {
    Seq::new(runs.len(), |i: int| runs[i]@)
}

/// Whether `fonts` holds the font of every run from `from` on.
pub open spec fn fonts_cover(fonts: Seq<Font>, runs: Seq<RunView>, from: int) -> bool {
    forall|i: int| from <= i < runs.len() ==> (#[trigger] runs[i]).font_id.0 < fonts.len()
}

impl RunView {
    /// The text after the characters to pass over.
    pub open spec fn remaining_text(self) -> Seq<char> {
        skip_up_to(self.text, self.skip)
    }

    /// The normalized text after the characters to pass over.
    pub open spec fn remaining_chars(self) -> Seq<char> {
        skip_up_to(nfc(self.text), self.skip)
    }
}

impl<'a> View for SectionText<'a> {
    type V = RunView;

    open spec fn view(&self) -> RunView {
        RunView {
            text: self.text@,
            skip: 0,
            scale: self.scale,
            color: self.color,
            font_id: self.font_id,
        }
    }
}

impl<'a> View for GlyphInfo<'a> {
    type V = RunView;

    open spec fn view(&self) -> RunView {
        RunView {
            text: self.text@,
            skip: self.skip,
            scale: self.scale,
            color: self.color,
            font_id: self.font_id,
        }
    }
}

impl<'a> View for SectionGlyphInfo<'a> {
    type V = SectionView;

    open spec fn view(&self) -> SectionView {
        SectionView {
            screen_position: self.screen_position,
            bounds: self.bounds,
            text: run_views(self.text@),
            text_index: self.text_index,
        }
    }
}

impl SectionView {
    /// Whether `fonts` holds the font of every run that is still to lay out.
    pub open spec fn fonts_known(self, fonts: Seq<Font>) -> bool {
        fonts_cover(fonts, self.text, self.text_index as int)
    }

    /// The runs still to lay out, each with its index in the section.
    pub open spec fn remaining_info(self) -> Seq<(usize, RunView)> {
        skip_up_to(Seq::new(self.text.len(), |i: int| (i as usize, self.text[i])), self.text_index)
    }
}

/// What a `VariedSection` holds, with each run as its view.
pub struct VariedSectionView {
    pub screen_position: Point,
    pub bounds: Bounds,
    pub z: i32,
    pub layout: Layout<BuiltInLineBreaker>,
    pub text: Seq<RunView>,
}

impl<'a> View for VariedSection<'a> {
    type V = VariedSectionView;

    open spec fn view(&self) -> VariedSectionView {
        VariedSectionView {
            screen_position: self.screen_position,
            bounds: self.bounds,
            z: self.z,
            layout: self.layout,
            text: Seq::new(self.text@.len(), |i: int| self.text@[i]@),
        }
    }
}

impl VariedSectionView {
    /// The section as layout reads it at the start: every run still to do.
    pub open spec fn glyph_info(self) -> SectionView {
        SectionView {
            screen_position: self.screen_position,
            bounds: self.bounds,
            text: self.text,
            text_index: 0,
        }
    }
}

impl<'a> vstd::std_specs::convert::FromSpecImpl<SectionText<'a>> for GlyphInfo<'a> {
    open spec fn obeys_from_spec() -> bool {
        true
    }

    open spec fn from_spec(section: SectionText<'a>) -> Self {
        GlyphInfo {
            text: section.text,
            skip: 0,
            scale: section.scale,
            color: section.color,
            font_id: section.font_id,
        }
    }
}

impl<'a> From<SectionText<'a>> for GlyphInfo<'a> {
    /// The run with none of its characters passed over.
    fn from(section: SectionText<'a>) -> (r: Self)
        ensures
            r@ == section@,
    {
        GlyphInfo {
            text: section.text,
            skip: 0,
            scale: section.scale,
            color: section.color,
            font_id: section.font_id,
        }
    }
}

/// A `SectionGlyphInfo` is told by its view, which `from` states; the
/// conversion has no value of its own to name here.
impl<'a, 'b> vstd::std_specs::convert::FromSpecImpl<&'b VariedSection<'a>> for SectionGlyphInfo<'a> {
    open spec fn obeys_from_spec() -> bool {
        false
    }

    open spec fn from_spec(section: &'b VariedSection<'a>) -> Self {
        arbitrary()
    }
}

impl<'a, 'b> From<&'b VariedSection<'a>> for SectionGlyphInfo<'a> {
    /// The section with every run still to lay out.
    fn from(section: &'b VariedSection<'a>) -> (r: Self)
        ensures
            r@ == section@.glyph_info(),
    {
        let mut text: Vec<GlyphInfo<'a>> = Vec::new();
        let mut i: usize = 0;
        while i < section.text.len()
            invariant
                i <= section.text.len(),
                run_views(text@) == section@.text.take(i as int),
            decreases section.text.len() - i,
        {
            let run = GlyphInfo::from(section.text[i]);
            let ghost before = text@;
            text.push(run);
            i += 1;
            assert(before.len() == run_views(before).len());
            assert forall|j: int| 0 <= j < i implies run_views(text@)[j] == section@.text[j] by {
                if j < i - 1 {
                    assert(run_views(before)[j] == section@.text.take(i - 1)[j]);
                }
            }
        }
        assert(section@.text.take(i as int) == section@.text);
        SectionGlyphInfo {
            screen_position: section.screen_position,
            bounds: section.bounds,
            text,
            text_index: 0,
        }
    }
}

/// Each of `runs` with its index, the run as its view.
pub open spec fn indexed_views(runs: Seq<(usize, GlyphInfo)>) -> Seq<(usize, RunView)> {
    Seq::new(runs.len(), |j: int| (runs[j].0, runs[j].1@))
}

impl<'a> SectionGlyphInfo<'a> {
    /// The runs still to lay out, each with its index in the section.
    pub fn remaining_info(&self) -> (r: Vec<(usize, GlyphInfo<'a>)>)
        ensures
            indexed_views(r@) == self@.remaining_info(),
    {
        let mut out: Vec<(usize, GlyphInfo<'a>)> = Vec::new();
        if self.text_index >= self.text.len() {
            return out;
        }
        let mut i: usize = self.text_index;
        while i < self.text.len()
            invariant
                self.text_index <= i <= self.text.len(),
                out@.len() == i - self.text_index,
                forall|j: int|
                    0 <= j < out@.len() ==> out@[j].0 == self.text_index + j && (#[trigger] out@[j]).1
                        == self.text@[self.text_index + j],
            decreases self.text.len() - i,
        {
            out.push((i, self.text[i]));
            i += 1;
        }
        out
    }
}

impl<'a> GlyphInfo<'a> {
    /// The normalized characters that are left, after those to pass over.
    pub fn remaining_chars(&self) -> (r: Vec<char>)
        ensures
            r@ == self@.remaining_chars(),
    {
        let all = nfc_chars(self.text);
        skip_chars(&all, self.skip)
    }

    /// The normalized characters that are left, each with the byte offset at
    /// which it starts among them.
    pub fn remaining_char_indices(&self) -> (r: RemainingNormCharIndices)
        ensures
            r.remaining() == char_indices(self@.remaining_chars()),
    {
        RemainingNormCharIndices::new(self.remaining_chars())
    }

    /// The text that is left, after the characters to pass over.
    pub fn substring(&self) -> (r: &'a str)
        ensures
            r@ == self@.remaining_text(),
    {
        let len = self.text.unicode_len();
        if self.skip >= len {
            self.text.substring_char(len, len)
        } else {
            self.text.substring_char(self.skip, len)
        }
    }
}

/// What is left of `chars` after the first `skip`, or nothing if there are
/// fewer.
pub fn skip_chars(chars: &Vec<char>, skip: usize) -> (r: Vec<char>)
    ensures
        r@ == skip_up_to(chars@, skip),
{
    let mut out: Vec<char> = Vec::new();
    if skip >= chars.len() {
        return out;
    }
    let mut i: usize = skip;
    while i < chars.len()
        invariant
            skip <= i <= chars.len(),
            out@ == chars@.subrange(skip as int, i as int),
        decreases chars.len() - i,
    {
        out.push(chars[i]);
        i += 1;
    }
    out
}

/// Each of `chars` with the byte offset at which it starts.
pub open spec fn char_indices(chars: Seq<char>) -> Seq<(usize, char)> {
    Seq::new(chars.len(), |k: int| (byte_offset(chars, k), chars[k]))
}

/// Walks over normalized characters and gives each with its byte offset, as
/// `char_indices` does for a string.
pub struct RemainingNormCharIndices {
    items: Vec<(usize, char)>,
    next: usize,
}

impl RemainingNormCharIndices {
    #[verifier::type_invariant]
    spec fn well_formed(self) -> bool {
        self.next <= self.items@.len()
    }

    /// The items still to come.
    pub closed spec fn remaining(self) -> Seq<(usize, char)> {
        self.items@.skip(self.next as int)
    }

    /// A walk over `remaining` from its first character.
    pub fn new(remaining: Vec<char>) -> (r: Self)
        ensures
            r.remaining() == char_indices(remaining@),
    {
        let mut items: Vec<(usize, char)> = Vec::new();
        let mut byte_progress: usize = 0;
        let mut k: usize = 0;
        while k < remaining.len()
            invariant
                k <= remaining.len(),
                byte_progress == byte_offset(remaining@, k as int),
                items@ == char_indices(remaining@).take(k as int),
            decreases remaining.len() - k,
        {
            let n = remaining[k];
            items.push((byte_progress, n));
            byte_progress = byte_progress.saturating_add(char_len_utf8(n));
            k += 1;
        }
        RemainingNormCharIndices { items, next: 0 }
    }

    /// The next character with its byte offset, or `None` at the end.
    pub fn next(&mut self) -> (r: Option<(usize, char)>)
        ensures
            old(self).remaining().len() == 0 ==> r.is_none()
                && final(self).remaining() == old(self).remaining(),
            old(self).remaining().len() > 0 ==> r == Some(old(self).remaining()[0])
                && final(self).remaining() == old(self).remaining().drop_first(),
    {
        proof {
            use_type_invariant(&*self);
        }
        if self.next < self.items.len() {
            let item = self.items[self.next];
            self.next = self.next + 1;
            Some(item)
        } else {
            None
        }
    }
}

} // verus!
