use glyph_layout::layout::words::{
    place_chars, read_run, Character, RelativePositionedGlyph, Word, Words,
};
use glyph_layout::{
    BoundingBox, BuiltInLineBreaker, Color, Font, FontId, GlyphEntry, GlyphId, GlyphInfo,
    GlyphMetrics, KerningPair, LineBreak, LineBreaker, Point, Rect, Scale, ScaledGlyph, VMetrics,
};

fn black() -> Color {
    Color { r: 0, g: 0, b: 0, a: 255 }
}

/// Every letter is 10 units wide and fills the box (1, -7)..(9, 0); a space is as wide and
/// draws nothing. The glyph of a character has the character's code as its id.
fn mono_font() -> Font {
    let letter_box = BoundingBox { x_min: 1, y_min: -7, x_max: 9, y_max: 0 };
    let mut glyphs = vec![GlyphEntry {
        character: ' ',
        metrics: GlyphMetrics { id: GlyphId(32), advance_width: 10, bounds: None },
    }];
    for c in ('a'..='z').chain('A'..='Z') {
        glyphs.push(GlyphEntry {
            character: c,
            metrics: GlyphMetrics { id: GlyphId(c as u32), advance_width: 10, bounds: Some(letter_box) },
        });
    }
    Font {
        ascent: 8,
        descent: -2,
        line_gap: 1,
        missing: GlyphMetrics { id: GlyphId(0), advance_width: 10, bounds: Some(letter_box) },
        glyphs,
        kerning: vec![
            KerningPair { left: GlyphId('a' as u32), right: GlyphId('v' as u32), adjustment: -2 },
            KerningPair { left: GlyphId(' ' as u32), right: GlyphId('v' as u32), adjustment: -1 },
        ],
    }
}

fn run(text: &str, scale: u32) -> GlyphInfo<'_> {
    GlyphInfo { text, skip: 0, scale: Scale::uniform(scale), color: black(), font_id: FontId(0) }
}

fn letter(c: char, x: i64, scale: u32) -> (RelativePositionedGlyph, Color, FontId) {
    let s = scale as i64;
    let bounds = if c == ' ' {
        None
    } else {
        Some(Rect { min: Point { x: s, y: -7 * s }, max: Point { x: 9 * s, y: 0 } })
    };
    (
        RelativePositionedGlyph {
            relative: Point { x, y: 0 },
            glyph: ScaledGlyph {
                id: GlyphId(c as u32),
                scale: Scale::uniform(scale),
                advance_width: 10 * s,
                bounds,
            },
        },
        black(),
        FontId(0),
    )
}

fn all_words(fonts: &Vec<Font>, runs: &Vec<GlyphInfo>, breaker: BuiltInLineBreaker) -> Vec<Word> {
    let mut words = Words::new(fonts, runs, 0, breaker);
    let mut out = Vec::new();
    while let Some(word) = words.next() {
        out.push(word);
    }
    assert!(words.next().is_none());
    out
}

#[test]
fn read_run_gives_one_character_for_each_normalized_char() {
    let font = mono_font();
    let info = run("a b", 1);
    let breaks = BuiltInLineBreaker::StandardLineBreaker.line_breaks(&info);
    assert_eq!(breaks, vec![LineBreak::Soft(2)]);
    let chars = read_run(&font, &breaks, &info);
    let v_metrics = VMetrics { ascent: 8, descent: -2, line_gap: 1 };
    assert_eq!(
        chars,
        vec![
            Character {
                glyph: Some(letter('a', 0, 1).0.glyph),
                kerning: 0,
                v_metrics,
                color: black(),
                font_id: FontId(0),
                line_break: None,
            },
            Character {
                glyph: Some(letter(' ', 0, 1).0.glyph),
                kerning: 0,
                v_metrics,
                color: black(),
                font_id: FontId(0),
                line_break: Some(LineBreak::Soft(2)),
            },
            Character {
                glyph: Some(letter('b', 0, 1).0.glyph),
                kerning: 0,
                v_metrics,
                color: black(),
                font_id: FontId(0),
                line_break: None,
            },
        ]
    );
}

#[test]
fn read_run_looks_up_kerning_with_the_glyph_before() {
    let font = mono_font();
    let info = run("av v", 3);
    let breaks = BuiltInLineBreaker::StandardLineBreaker.line_breaks(&info);
    let chars = read_run(&font, &breaks, &info);
    let kerning: Vec<i64> = chars.iter().map(|c| c.kerning).collect();
    assert_eq!(kerning, vec![0, -6, 0, -3]);
}

#[test]
fn read_run_gives_control_characters_no_glyph() {
    let font = mono_font();
    let info = run("a\nv", 1);
    let breaks = BuiltInLineBreaker::StandardLineBreaker.line_breaks(&info);
    let chars = read_run(&font, &breaks, &info);
    assert_eq!(chars.len(), 3);
    assert_eq!(chars[1].glyph, None);
    assert_eq!(chars[1].kerning, 0);
    assert_eq!(chars[1].line_break, Some(LineBreak::Hard(2)));
    // The kerning of `v` is with `a`, the glyph before the control character.
    assert_eq!(chars[2].kerning, -2);
}

#[test]
fn read_run_takes_a_break_only_where_it_lies_at_the_end_of_a_character() {
    let font = mono_font();
    let info = run("\u{2764}a", 1);
    let breaks = vec![LineBreak::Soft(1), LineBreak::Hard(2), LineBreak::Soft(4)];
    let chars = read_run(&font, &breaks, &info);
    assert_eq!(chars.len(), 2);
    assert_eq!(chars[0].line_break, None);
    assert_eq!(chars[1].line_break, Some(LineBreak::Soft(4)));
    assert_eq!(chars[0].glyph.unwrap().id, GlyphId(0));
}

#[test]
fn read_run_honours_the_skip() {
    let font = mono_font();
    let info = GlyphInfo { skip: 6, ..run("hello world", 1) };
    let breaks = BuiltInLineBreaker::StandardLineBreaker.line_breaks(&info);
    let chars = read_run(&font, &breaks, &info);
    let ids: Vec<u32> = chars.iter().map(|c| c.glyph.unwrap().id.0).collect();
    assert_eq!(ids, "world".chars().map(|c| c as u32).collect::<Vec<u32>>());
    assert_eq!(chars[4].line_break, None);
}

#[test]
fn word_push_places_glyphs_side_by_side() {
    let v_metrics = VMetrics { ascent: 8, descent: -2, line_gap: 1 };
    let mut word = Word::new();
    assert_eq!(word.glyphs.len(), 0);
    assert_eq!(word.layout_width, 0);
    assert_eq!(word.bounds, None);
    assert_eq!(word.max_v_metrics, VMetrics { ascent: 0, descent: 0, line_gap: 0 });
    let a = Character {
        glyph: Some(letter('a', 0, 1).0.glyph),
        kerning: -4,
        v_metrics,
        color: black(),
        font_id: FontId(0),
        line_break: None,
    };
    word.push(&a);
    // The first glyph of a word is not kerned.
    assert_eq!(word.glyphs, vec![letter('a', 0, 1)]);
    assert_eq!(word.layout_width, 10);
    word.push(&a);
    assert_eq!(word.glyphs, vec![letter('a', 0, 1), letter('a', 6, 1)]);
    assert_eq!(word.layout_width, 16);
    assert_eq!(word.bounds, Some(Rect { min: Point { x: 7, y: -7 }, max: Point { x: 15, y: 0 } }));
    assert_eq!(word.max_v_metrics, v_metrics);
    assert!(!word.hard_break);
    let newline = Character { glyph: None, line_break: Some(LineBreak::Hard(3)), ..a };
    word.push(&newline);
    assert_eq!(word.glyphs.len(), 2);
    assert_eq!(word.layout_width, 16);
    assert!(word.hard_break);
}

#[test]
fn word_width_stops_at_the_end_of_the_range() {
    let mut glyph = letter('a', 0, 1).0.glyph;
    glyph.advance_width = i64::MAX;
    let c = Character {
        glyph: Some(glyph),
        kerning: 5,
        v_metrics: VMetrics { ascent: 1, descent: 0, line_gap: 0 },
        color: black(),
        font_id: FontId(0),
        line_break: None,
    };
    let mut word = Word::new();
    word.push(&c);
    word.push(&c);
    assert_eq!(word.layout_width, i64::MAX);
    assert_eq!(word.glyphs[1].0.relative.x, i64::MAX);
}

#[test]
fn words_of_hello_world() {
    let fonts = vec![mono_font()];
    let runs = vec![run("hello world", 1)];
    let words = all_words(&fonts, &runs, BuiltInLineBreaker::StandardLineBreaker);
    assert_eq!(words.len(), 2);
    assert_eq!(
        words[0].glyphs,
        vec![
            letter('h', 0, 1),
            letter('e', 10, 1),
            letter('l', 20, 1),
            letter('l', 30, 1),
            letter('o', 40, 1),
            letter(' ', 50, 1),
        ]
    );
    assert_eq!(words[0].layout_width, 60);
    assert_eq!(
        words[0].bounds,
        Some(Rect { min: Point { x: 41, y: -7 }, max: Point { x: 49, y: 0 } })
    );
    assert_eq!(words[0].max_v_metrics, VMetrics { ascent: 8, descent: -2, line_gap: 1 });
    assert!(!words[0].hard_break);
    assert_eq!(
        words[1].glyphs,
        vec![
            letter('w', 0, 1),
            letter('o', 10, 1),
            letter('r', 20, 1),
            letter('l', 30, 1),
            letter('d', 40, 1),
        ]
    );
    assert_eq!(words[1].layout_width, 50);
    assert!(!words[1].hard_break);
}

#[test]
fn a_newline_ends_the_word_with_a_hard_break() {
    let fonts = vec![mono_font()];
    let runs = vec![run("hello\nworld", 1)];
    let words = all_words(&fonts, &runs, BuiltInLineBreaker::StandardLineBreaker);
    assert_eq!(words.len(), 2);
    assert_eq!(words[0].glyphs.len(), 5);
    assert_eq!(words[0].layout_width, 50);
    assert!(words[0].hard_break);
    assert_eq!(words[1].glyphs.len(), 5);
    assert!(!words[1].hard_break);
}

#[test]
fn a_word_of_control_characters_has_no_glyph_and_no_height() {
    let fonts = vec![mono_font()];
    let runs = vec![run("a\n\nb", 1)];
    let words = all_words(&fonts, &runs, BuiltInLineBreaker::StandardLineBreaker);
    assert_eq!(words.len(), 3);
    assert_eq!(words[1].glyphs.len(), 0);
    assert_eq!(words[1].layout_width, 0);
    assert_eq!(words[1].bounds, None);
    assert_eq!(words[1].max_v_metrics, VMetrics { ascent: 0, descent: 0, line_gap: 0 });
    assert!(words[1].hard_break);
}

#[test]
fn a_word_of_spaces_has_glyphs_but_no_bounds() {
    let fonts = vec![mono_font()];
    let runs = vec![run("  ", 1)];
    let words = all_words(&fonts, &runs, BuiltInLineBreaker::StandardLineBreaker);
    assert_eq!(words.len(), 1);
    assert_eq!(words[0].glyphs, vec![letter(' ', 0, 1), letter(' ', 10, 1)]);
    assert_eq!(words[0].bounds, None);
    assert_eq!(words[0].layout_width, 20);
}

#[test]
fn kerning_moves_a_glyph_within_its_word() {
    let fonts = vec![mono_font()];
    let runs = vec![run("av", 1)];
    let words = all_words(&fonts, &runs, BuiltInLineBreaker::StandardLineBreaker);
    assert_eq!(words.len(), 1);
    assert_eq!(words[0].glyphs, vec![letter('a', 0, 1), letter('v', 8, 1)]);
    assert_eq!(words[0].layout_width, 18);
    assert_eq!(
        words[0].bounds,
        Some(Rect { min: Point { x: 9, y: -7 }, max: Point { x: 17, y: 0 } })
    );
}

#[test]
fn the_first_glyph_of_a_word_is_not_kerned() {
    let fonts = vec![mono_font()];
    let runs = vec![run("av", 1)];
    let words = all_words(&fonts, &runs, BuiltInLineBreaker::AnyCharLineBreaker);
    assert_eq!(words.len(), 2);
    assert_eq!(words[0].glyphs, vec![letter('a', 0, 1)]);
    assert_eq!(words[1].glyphs, vec![letter('v', 0, 1)]);
    assert_eq!(words[1].layout_width, 10);
}

#[test]
fn words_take_the_scale_of_their_run() {
    let fonts = vec![mono_font()];
    let runs = vec![run("ab", 3)];
    let words = all_words(&fonts, &runs, BuiltInLineBreaker::StandardLineBreaker);
    assert_eq!(words.len(), 1);
    assert_eq!(words[0].glyphs, vec![letter('a', 0, 3), letter('b', 30, 3)]);
    assert_eq!(words[0].layout_width, 60);
    assert_eq!(words[0].max_v_metrics, VMetrics { ascent: 24, descent: -6, line_gap: 3 });
    assert_eq!(
        words[0].bounds,
        Some(Rect { min: Point { x: 33, y: -21 }, max: Point { x: 57, y: 0 } })
    );
}

#[test]
fn words_go_on_from_run_to_run() {
    let fonts = vec![mono_font(), mono_font()];
    let mut second = run("moon", 2);
    second.font_id = FontId(1);
    second.color = Color { r: 9, g: 9, b: 9, a: 9 };
    let runs = vec![run("The old ", 1), run("", 1), second];
    let words = all_words(&fonts, &runs, BuiltInLineBreaker::StandardLineBreaker);
    // The end of a run is no break: "old " and "moon" make one word.
    assert_eq!(words.len(), 2);
    assert_eq!(words[0].glyphs.len(), 4);
    assert_eq!(words[0].layout_width, 40);
    assert_eq!(words[1].glyphs.len(), 8);
    assert_eq!(words[1].layout_width, 40 + 80);
    assert_eq!(words[1].glyphs[3].1, black());
    assert_eq!(words[1].glyphs[4].1, Color { r: 9, g: 9, b: 9, a: 9 });
    assert_eq!(words[1].glyphs[4].2, FontId(1));
    assert_eq!(words[1].glyphs[4].0.relative.x, 40);
    assert_eq!(words[1].glyphs[5].0.relative.x, 60);
    assert_eq!(words[1].max_v_metrics.ascent, 16);
}

#[test]
fn a_newline_at_the_end_of_a_run_ends_the_word() {
    let fonts = vec![mono_font()];
    let runs = vec![run("ab\n", 1), run("cd", 1)];
    let words = all_words(&fonts, &runs, BuiltInLineBreaker::StandardLineBreaker);
    assert_eq!(words.len(), 2);
    assert_eq!(words[0].glyphs.len(), 2);
    assert!(words[0].hard_break);
    assert_eq!(words[1].glyphs.len(), 2);
    assert!(!words[1].hard_break);
}

#[test]
fn a_word_without_a_break_goes_on_into_the_next_run() {
    let fonts = vec![mono_font()];
    let runs = vec![run("ab", 1), run("cd", 2)];
    // A breaker that finds nothing: the word ends where the text ends.
    let chars_one = read_run(&fonts[0], &Vec::new(), &runs[0]);
    assert!(chars_one.iter().all(|c| c.line_break.is_none()));
    let mut word = Word::new();
    for c in chars_one.iter().chain(read_run(&fonts[0], &Vec::new(), &runs[1]).iter()) {
        word.push(c);
    }
    assert_eq!(word.glyphs.len(), 4);
    assert_eq!(word.layout_width, 60);
    // The glyph with the greater ascent gives the word its vertical metrics.
    assert_eq!(word.max_v_metrics, VMetrics { ascent: 16, descent: -4, line_gap: 2 });
}

#[test]
fn words_start_at_the_given_run() {
    let fonts = vec![mono_font()];
    let runs = vec![run("ab ", 1), run("cd", 1)];
    let mut words = Words::new(&fonts, &runs, 1, BuiltInLineBreaker::StandardLineBreaker);
    let word = words.next().unwrap();
    assert_eq!(word.glyphs, vec![letter('c', 0, 1), letter('d', 10, 1)]);
    assert!(words.next().is_none());
    let mut none = Words::new(&fonts, &runs, 2, BuiltInLineBreaker::StandardLineBreaker);
    assert!(none.next().is_none());
    let mut past = Words::new(&fonts, &runs, 7, BuiltInLineBreaker::StandardLineBreaker);
    assert!(past.next().is_none());
}

#[test]
fn no_text_gives_no_word() {
    let fonts = vec![mono_font()];
    let none: Vec<GlyphInfo> = Vec::new();
    assert_eq!(all_words(&fonts, &none, BuiltInLineBreaker::StandardLineBreaker).len(), 0);
    let empty = vec![run("", 1), run("", 1)];
    assert_eq!(all_words(&fonts, &empty, BuiltInLineBreaker::StandardLineBreaker).len(), 0);
}

#[test]
fn relative_glyph_bounds_and_screen_position() {
    let (glyph, _, _) = letter('a', 30, 1);
    assert_eq!(glyph.bounds(), Some(Rect { min: Point { x: 31, y: -7 }, max: Point { x: 39, y: 0 } }));
    assert_eq!(letter(' ', 30, 1).0.bounds(), None);
    let placed = glyph.screen_positioned(Point { x: 100, y: 200 });
    assert_eq!(placed.position, Point { x: 130, y: 200 });
    assert_eq!(placed.glyph, glyph.glyph);
}

#[test]
fn place_chars_reads_the_given_characters_not_the_text() {
    let font = mono_font();
    let info = run("ignored", 2);
    let chars = vec!['a', 'v', '\n', 'v'];
    let breaks = vec![LineBreak::Soft(2), LineBreak::Hard(3)];
    let placed = place_chars(&font, &breaks, &chars, &info);
    assert_eq!(placed.len(), 4);
    assert_eq!(placed[0].glyph, Some(letter('a', 0, 2).0.glyph));
    assert_eq!(placed[0].kerning, 0);
    assert_eq!(placed[0].line_break, None);
    assert_eq!(placed[1].kerning, -4);
    assert_eq!(placed[1].line_break, Some(LineBreak::Soft(2)));
    assert_eq!(placed[2].glyph, None);
    assert_eq!(placed[2].line_break, Some(LineBreak::Hard(3)));
    // The glyph before the second `v` is the first `v`: no pair, no kerning.
    assert_eq!(placed[3].kerning, 0);
    assert_eq!(placed[3].line_break, None);
    assert_eq!(placed[3].v_metrics, VMetrics { ascent: 16, descent: -4, line_gap: 2 });
}

#[test]
fn words_starting_with_given_characters() {
    let fonts = vec![mono_font()];
    let runs = vec![run("cd", 1)];
    let first = place_chars(&fonts[0], &vec![LineBreak::Soft(1)], &vec!['a', 'b'], &runs[0]);
    let mut words = Words::starting_with(
        first,
        &fonts,
        &runs,
        0,
        BuiltInLineBreaker::StandardLineBreaker,
    );
    let a = words.next().unwrap();
    assert_eq!(a.glyphs, vec![letter('a', 0, 1)]);
    // `b` has no break after it, so its word goes on into the run.
    let bcd = words.next().unwrap();
    assert_eq!(bcd.glyphs, vec![letter('b', 0, 1), letter('c', 10, 1), letter('d', 20, 1)]);
    assert!(words.next().is_none());
}
