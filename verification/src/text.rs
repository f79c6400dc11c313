//! Characters as the layout reads them: normalized, with byte offsets.

use unicode_normalization::UnicodeNormalization;
use vstd::prelude::*;
use vstd::utf8::encode_utf8;

verus! {

/// The characters of `text` in Unicode Normalization Form C.
pub uninterp spec fn nfc(text: Seq<char>) -> Seq<char>;

/// Calls `unicode_normalization`'s `nfc` on `text` and collects what the
/// iterator yields. Trusted: the result is the NFC form of the text, a
/// function of the text alone.
#[verifier::external_body]
pub(crate) fn nfc_chars(text: &str) -> (r: Vec<char>)
    ensures
        r@ == nfc(text@),
{
    text.nfc().collect()
}

/// The line breaks that the Unicode line breaking algorithm finds in `text`:
/// each is the byte offset at which the next line would start, and whether
/// the break is mandatory.
pub uninterp spec fn unicode_breaks(text: Seq<char>) -> Seq<(usize, bool)>;

/// The length of `text` in bytes, as UTF-8.
pub open spec fn byte_len(text: Seq<char>) -> nat {
    encode_utf8(text).len()
}

/// Collects what `xi_unicode::LineBreakIterator` yields for `text`. Trusted:
/// the result is a function of the text alone. The iterator moves forward
/// through the text by at least one byte from break to break, so that each
/// offset is greater than the one before it; it never breaks before the first
/// character, and its last break is the end of the text, so that every offset
/// lies between 1 and the length of the text in bytes.
#[verifier::external_body]
pub(crate) fn unicode_line_breaks(text: &str) -> (r: Vec<(usize, bool)>)
    ensures
        r@ == unicode_breaks(text@),
        forall|i: int, j: int| 0 <= i < j < r@.len() ==> r@[i].0 < r@[j].0,
        forall|i: int| 0 <= i < r@.len() ==> 1 <= (#[trigger] r@[i]).0 <= byte_len(text@),
{
    xi_unicode::LineBreakIterator::new(text).collect()
}

/// The number of bytes that `c` takes in UTF-8.
pub open spec fn utf8_len(c: char) -> nat {
    if (c as u32) < 0x80 {
        1
    } else if (c as u32) < 0x800 {
        2
    } else if (c as u32) < 0x10000 {
        3
    } else {
        4
    }
}

/// The number of bytes that `c` takes in UTF-8.
pub fn char_len_utf8(c: char) -> (n: usize)
    ensures
        n == utf8_len(c),
{
    let v: u32 = c as u32;
    if v < 0x80 {
        1
    } else if v < 0x800 {
        2
    } else if v < 0x10000 {
        3
    } else {
        4
    }
}

/// A byte count held within `usize`.
pub open spec fn sat_usize(v: int) -> usize {
    if v > usize::MAX {
        usize::MAX
    } else {
        v as usize
    }
}

/// The byte offset at which character `k` of `chars` starts when the
/// characters are written in UTF-8 one after the other; for `k` equal to the
/// number of characters, the length in bytes. It stops at `usize::MAX`.
pub open spec fn byte_offset(chars: Seq<char>, k: int) -> usize
    decreases k,
{
    if k <= 0 {
        0
    } else {
        sat_usize(byte_offset(chars, k - 1) + utf8_len(chars[k - 1]))
    }
}

/// Byte offsets never decrease from one character to the next.
pub proof fn lemma_byte_offset_monotonic(chars: Seq<char>, j: int, k: int)
    requires
        j <= k,
    ensures
        byte_offset(chars, j) <= byte_offset(chars, k),
    decreases k - j,
{
    if j < k {
        lemma_byte_offset_monotonic(chars, j, k - 1);
    }
}

/// What is left of `items` after the first `n`, or nothing if there are
/// fewer than `n`.
pub open spec fn skip_up_to<T>(items: Seq<T>, n: usize) -> Seq<T> {
    if n >= items.len() {
        Seq::empty()
    } else {
        items.skip(n as int)
    }
}

/// Whether `c` is a control character (general category Cc).
pub open spec fn is_control(c: char) -> bool {
    (c as u32) < 0x20 || (0x7f <= (c as u32) && (c as u32) < 0xa0)
}

/// Whether `c` is a control character.
pub fn char_is_control(c: char) -> (b: bool)
    ensures
        b == is_control(c),
{
    let v: u32 = c as u32;
    v < 0x20 || (0x7f <= v && v < 0xa0)
}

} // verus!
