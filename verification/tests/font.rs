use glyph_layout::font::scale_units;
use glyph_layout::{
    BoundingBox, Font, GlyphEntry, GlyphId, GlyphMetrics, KerningPair, Point, PositionedGlyph,
    Rect, Scale, ScaledGlyph, VMetrics,
};

fn metrics(id: u32, advance_width: i32, bounds: Option<BoundingBox>) -> GlyphMetrics {
    GlyphMetrics { id: GlyphId(id), advance_width, bounds }
}

fn small_font() -> Font {
    let a_box = BoundingBox { x_min: 1, y_min: -7, x_max: 9, y_max: 0 };
    let other_box = BoundingBox { x_min: 0, y_min: -5, x_max: 4, y_max: 2 };
    Font {
        ascent: 8,
        descent: -2,
        line_gap: 1,
        missing: metrics(0, 6, None),
        glyphs: vec![
            GlyphEntry { character: 'a', metrics: metrics(1, 10, Some(a_box)) },
            GlyphEntry { character: ' ', metrics: metrics(2, 5, None) },
            GlyphEntry { character: 'a', metrics: metrics(3, 99, Some(other_box)) },
            GlyphEntry { character: 'v', metrics: metrics(4, 9, Some(other_box)) },
        ],
        kerning: vec![
            KerningPair { left: GlyphId(1), right: GlyphId(4), adjustment: -2 },
            KerningPair { left: GlyphId(4), right: GlyphId(1), adjustment: -3 },
            KerningPair { left: GlyphId(1), right: GlyphId(4), adjustment: 50 },
        ],
    }
}

#[test]
fn scale_units_multiplies() {
    assert_eq!(scale_units(10, 3), 30);
    assert_eq!(scale_units(-10, 3), -30);
    assert_eq!(scale_units(7, 0), 0);
    assert_eq!(scale_units(i32::MAX, u32::MAX), 2147483647i64 * 4294967295i64);
    assert_eq!(scale_units(i32::MIN, u32::MAX), -2147483648i64 * 4294967295i64);
}

#[test]
fn uniform_scale_is_the_same_on_both_axes() {
    assert_eq!(Scale::uniform(3), Scale { x: 3, y: 3 });
}

#[test]
fn glyph_takes_the_first_entry() {
    let font = small_font();
    assert_eq!(font.glyph('a').id, GlyphId(1));
    assert_eq!(font.glyph('a').advance_width, 10);
    assert_eq!(font.glyph('v').id, GlyphId(4));
    assert_eq!(font.glyph(' ').bounds, None);
}

#[test]
fn glyph_without_entry_is_the_missing_glyph() {
    let font = small_font();
    assert_eq!(font.glyph('z'), metrics(0, 6, None));
    let empty = Font { glyphs: Vec::new(), ..small_font() };
    assert_eq!(empty.glyph('a'), metrics(0, 6, None));
}

#[test]
fn pair_kerning_takes_the_first_pair_and_scales_it() {
    let font = small_font();
    assert_eq!(font.pair_kerning(Scale::uniform(1), GlyphId(1), GlyphId(4)), -2);
    assert_eq!(font.pair_kerning(Scale { x: 3, y: 7 }, GlyphId(1), GlyphId(4)), -6);
    assert_eq!(font.pair_kerning(Scale { x: 3, y: 7 }, GlyphId(4), GlyphId(1)), -9);
}

#[test]
fn pair_kerning_without_pair_is_zero() {
    let font = small_font();
    assert_eq!(font.pair_kerning(Scale::uniform(4), GlyphId(1), GlyphId(1)), 0);
    assert_eq!(font.pair_kerning(Scale::uniform(4), GlyphId(4), GlyphId(9)), 0);
}

#[test]
fn v_metrics_scale_with_y() {
    let font = small_font();
    assert_eq!(
        font.v_metrics(Scale { x: 2, y: 3 }),
        VMetrics { ascent: 24, descent: -6, line_gap: 3 }
    );
}

#[test]
fn line_height_is_ascent_less_descent_plus_gap() {
    assert_eq!(VMetrics { ascent: 8, descent: -2, line_gap: 1 }.line_height(), 11);
    assert_eq!(VMetrics { ascent: 0, descent: 0, line_gap: 0 }.line_height(), 0);
    assert_eq!(VMetrics { ascent: i64::MAX, descent: -1, line_gap: 5 }.line_height(), i64::MAX);
}

#[test]
fn scaled_glyph_scales_advance_and_box() {
    let font = small_font();
    let glyph = font.glyph('a').scaled(Scale { x: 2, y: 3 });
    assert_eq!(
        glyph,
        ScaledGlyph {
            id: GlyphId(1),
            scale: Scale { x: 2, y: 3 },
            advance_width: 20,
            bounds: Some(Rect { min: Point { x: 2, y: -21 }, max: Point { x: 18, y: 0 } }),
        }
    );
    assert_eq!(font.glyph(' ').scaled(Scale::uniform(2)).bounds, None);
    assert_eq!(font.glyph(' ').scaled(Scale::uniform(2)).advance_width, 10);
}

#[test]
fn bounding_box_scales_each_axis() {
    let b = BoundingBox { x_min: -1, y_min: -2, x_max: 3, y_max: 4 };
    assert_eq!(
        b.scaled(Scale { x: 10, y: 100 }),
        Rect { min: Point { x: -10, y: -200 }, max: Point { x: 30, y: 400 } }
    );
}

#[test]
fn pixel_bounding_box_moves_with_the_glyph() {
    let font = small_font();
    let glyph = font.glyph('a').scaled(Scale::uniform(1));
    let placed = PositionedGlyph { glyph, position: Point { x: 100, y: 50 } };
    assert_eq!(
        placed.pixel_bounding_box(),
        Some(Rect { min: Point { x: 101, y: 43 }, max: Point { x: 109, y: 50 } })
    );
    let space = PositionedGlyph {
        glyph: font.glyph(' ').scaled(Scale::uniform(1)),
        position: Point { x: 100, y: 50 },
    };
    assert_eq!(space.pixel_bounding_box(), None);
}

#[test]
fn points_and_rects_move_with_saturation() {
    let p = Point { x: 1, y: 2 }.offset(Point { x: 10, y: -20 });
    assert_eq!(p, Point { x: 11, y: -18 });
    let far = Point { x: i64::MAX, y: i64::MIN }.offset(Point { x: 1, y: -1 });
    assert_eq!(far, Point { x: i64::MAX, y: i64::MIN });
    let r = Rect { min: Point { x: 0, y: 0 }, max: Point { x: 5, y: 5 } }
        .offset(Point { x: 2, y: 3 });
    assert_eq!(r, Rect { min: Point { x: 2, y: 3 }, max: Point { x: 7, y: 8 } });
}
