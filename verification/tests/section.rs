use glyph_layout::section::skip_chars;
use glyph_layout::text::{char_is_control, char_len_utf8};
use glyph_layout::{
    Bounds, Color, FontId, GlyphInfo, HorizontalAlign, Layout, Point, RemainingNormCharIndices,
    Scale, SectionGlyphInfo, SectionText, VariedSection,
};

fn black() -> Color {
    Color { r: 0, g: 0, b: 0, a: 255 }
}

fn run(text: &str, skip: usize) -> GlyphInfo<'_> {
    GlyphInfo { text, skip, scale: Scale::uniform(1), color: black(), font_id: FontId(0) }
}

#[test]
fn utf8_lengths() {
    assert_eq!(char_len_utf8('a'), 1);
    assert_eq!(char_len_utf8('\u{7f}'), 1);
    assert_eq!(char_len_utf8('\u{80}'), 2);
    assert_eq!(char_len_utf8('\u{e9}'), 2);
    assert_eq!(char_len_utf8('\u{7ff}'), 2);
    assert_eq!(char_len_utf8('\u{800}'), 3);
    assert_eq!(char_len_utf8('\u{2764}'), 3);
    assert_eq!(char_len_utf8('\u{ffff}'), 3);
    assert_eq!(char_len_utf8('\u{10000}'), 4);
    assert_eq!(char_len_utf8('\u{10ffff}'), 4);
    for c in ['a', '\u{e9}', '\u{2764}', '\u{1f600}'] {
        assert_eq!(char_len_utf8(c), c.len_utf8());
    }
}

#[test]
fn control_characters() {
    assert!(char_is_control('\n'));
    assert!(char_is_control('\t'));
    assert!(char_is_control('\u{0}'));
    assert!(char_is_control('\u{1f}'));
    assert!(!char_is_control(' '));
    assert!(!char_is_control('a'));
    assert!(!char_is_control('\u{7e}'));
    assert!(char_is_control('\u{7f}'));
    assert!(char_is_control('\u{9f}'));
    assert!(!char_is_control('\u{a0}'));
    for code in 0u32..0x500 {
        if let Some(c) = char::from_u32(code) {
            assert_eq!(char_is_control(c), c.is_control());
        }
    }
}

#[test]
fn substring_passes_over_characters_not_bytes() {
    assert_eq!(run("hello", 0).substring(), "hello");
    assert_eq!(run("hello", 2).substring(), "llo");
    assert_eq!(run("\u{2764}\u{e9}x", 1).substring(), "\u{e9}x");
    assert_eq!(run("\u{2764}\u{e9}x", 2).substring(), "x");
}

#[test]
fn substring_is_empty_when_all_is_passed_over() {
    assert_eq!(run("hello", 5).substring(), "");
    assert_eq!(run("hello", 6).substring(), "");
    assert_eq!(run("", 0).substring(), "");
    assert_eq!(run("", 3).substring(), "");
}

#[test]
fn remaining_chars_are_normalized() {
    assert_eq!(run("e\u{301}x", 0).remaining_chars(), vec!['\u{e9}', 'x']);
    assert_eq!(run("abc", 0).remaining_chars(), vec!['a', 'b', 'c']);
}

#[test]
fn remaining_chars_pass_over_normalized_characters() {
    assert_eq!(run("e\u{301}x", 1).remaining_chars(), vec!['x']);
    assert_eq!(run("abc", 2).remaining_chars(), vec!['c']);
    assert_eq!(run("abc", 3).remaining_chars(), Vec::<char>::new());
    assert_eq!(run("abc", 10).remaining_chars(), Vec::<char>::new());
}

#[test]
fn remaining_norm_char_indices() {
    let mut remaining = run("\u{2764}\u{e9}\nabc", 0).remaining_char_indices();
    assert_eq!(remaining.next(), Some((0, '\u{2764}')));
    assert_eq!(remaining.next(), Some((3, '\u{e9}')));
    assert_eq!(remaining.next(), Some((5, '\n')));
    assert_eq!(remaining.next(), Some((6, 'a')));
    assert_eq!(remaining.next(), Some((7, 'b')));
    assert_eq!(remaining.next(), Some((8, 'c')));
    assert_eq!(remaining.next(), None);
    assert_eq!(remaining.next(), None);
}

#[test]
fn remaining_char_indices_start_at_zero_after_a_skip() {
    let mut remaining = run("\u{2764}\u{e9}x", 1).remaining_char_indices();
    assert_eq!(remaining.next(), Some((0, '\u{e9}')));
    assert_eq!(remaining.next(), Some((2, 'x')));
    assert_eq!(remaining.next(), None);
}

#[test]
fn glyph_info_from_section_text_starts_at_the_beginning() {
    let text = SectionText {
        text: "moon",
        scale: Scale { x: 2, y: 3 },
        color: Color { r: 1, g: 2, b: 3, a: 4 },
        font_id: FontId(5),
    };
    let info = GlyphInfo::from(text);
    assert_eq!(info.text, "moon");
    assert_eq!(info.skip, 0);
    assert_eq!(info.scale, Scale { x: 2, y: 3 });
    assert_eq!(info.color, Color { r: 1, g: 2, b: 3, a: 4 });
    assert_eq!(info.font_id, FontId(5));
}

fn two_run_section<'a>() -> VariedSection<'a> {
    VariedSection {
        screen_position: Point { x: 3, y: 4 },
        bounds: Bounds { width: 100, height: 200 },
        z: 7,
        layout: Layout::default_wrap().h_align(HorizontalAlign::Right),
        text: vec![
            SectionText { text: "The ", scale: Scale::uniform(1), color: black(), font_id: FontId(0) },
            SectionText { text: "moon", scale: Scale::uniform(2), color: black(), font_id: FontId(1) },
        ],
    }
}

#[test]
fn section_glyph_info_from_section_keeps_place_and_runs() {
    let section = two_run_section();
    let info = SectionGlyphInfo::from(&section);
    assert_eq!(info.screen_position, Point { x: 3, y: 4 });
    assert_eq!(info.bounds, Bounds { width: 100, height: 200 });
    assert_eq!(info.text_index, 0);
    assert_eq!(info.text.len(), 2);
    assert_eq!(info.text[0].text, "The ");
    assert_eq!(info.text[0].skip, 0);
    assert_eq!(info.text[1].text, "moon");
    assert_eq!(info.text[1].scale, Scale::uniform(2));
    assert_eq!(info.text[1].font_id, FontId(1));
}

#[test]
fn remaining_info_starts_at_the_text_index() {
    let section = two_run_section();
    let mut info = SectionGlyphInfo::from(&section);
    let all = info.remaining_info();
    assert_eq!(all.len(), 2);
    assert_eq!(all[0].0, 0);
    assert_eq!(all[0].1.text, "The ");
    assert_eq!(all[1].0, 1);
    assert_eq!(all[1].1.text, "moon");
    info.text_index = 1;
    let rest = info.remaining_info();
    assert_eq!(rest.len(), 1);
    assert_eq!(rest[0].0, 1);
    assert_eq!(rest[0].1.text, "moon");
    info.text_index = 2;
    assert_eq!(info.remaining_info().len(), 0);
    info.text_index = 9;
    assert_eq!(info.remaining_info().len(), 0);
}

#[test]
fn skip_chars_leaves_the_rest() {
    let chars = vec!['a', 'b', 'c'];
    assert_eq!(skip_chars(&chars, 0), vec!['a', 'b', 'c']);
    assert_eq!(skip_chars(&chars, 1), vec!['b', 'c']);
    assert_eq!(skip_chars(&chars, 3), Vec::<char>::new());
    assert_eq!(skip_chars(&chars, usize::MAX), Vec::<char>::new());
    assert_eq!(skip_chars(&Vec::new(), 0), Vec::<char>::new());
}

#[test]
fn char_indices_of_given_characters() {
    let mut walk = RemainingNormCharIndices::new(vec!['\u{1f600}', 'a', '\u{e9}']);
    assert_eq!(walk.next(), Some((0, '\u{1f600}')));
    assert_eq!(walk.next(), Some((4, 'a')));
    assert_eq!(walk.next(), Some((5, '\u{e9}')));
    assert_eq!(walk.next(), None);
    let mut none = RemainingNormCharIndices::new(Vec::new());
    assert_eq!(none.next(), None);
}
