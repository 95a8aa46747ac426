use text2svg::cache::{GlyphIdentity, GlyphOutlines, GlyphSymbolCache};
use text2svg::layout::{
    layout_line, GlyphPlacement, LineBoundingBox, PathConfig, Point, ShapedGlyph, StrokeLineCap,
    StrokeLineJoin, TextBuilder,
};
use text2svg::outline::{transcode, GlyphPathBuilder, OutlineCommand, PathCommand, Transform};
use text2svg::scale::{ceil_div, floor_div, FaceMetrics, ScaleContext};

fn metrics() -> FaceMetrics {
    FaceMetrics { units_per_em: 1000, ascent: 800, descent: -200 }
}

fn glyph(id: u16, advance: i32) -> ShapedGlyph {
    ShapedGlyph { glyph: id, x_advance: advance, y_advance: 0, x_offset: 0, y_offset: 0 }
}

fn triangle() -> Vec<OutlineCommand> {
    vec![
        OutlineCommand::MoveTo { x: 0, y: 0 },
        OutlineCommand::LineTo { x: 500, y: 0 },
        OutlineCommand::LineTo { x: 250, y: 700 },
        OutlineCommand::Close,
    ]
}

fn outlines() -> GlyphOutlines {
    let mut table = GlyphOutlines::new();
    table.insert(1, triangle());
    table.insert(2, triangle());
    table.insert(3, Vec::new());
    table
}

#[test]
fn floor_and_ceil_round_towards_their_side() {
    assert_eq!(floor_div(7, 2), 3);
    assert_eq!(ceil_div(7, 2), 4);
    assert_eq!(floor_div(-7, 2), -4);
    assert_eq!(ceil_div(-7, 2), -3);
    assert_eq!(floor_div(6, 3), 2);
    assert_eq!(ceil_div(6, 3), 2);
    assert_eq!(floor_div(-6, 3), -2);
    assert_eq!(ceil_div(-6, 3), -2);
    assert_eq!(floor_div(0, 5), 0);
    assert_eq!(ceil_div(0, 5), 0);
    assert_eq!(floor_div(-1, 1000), -1);
    assert_eq!(ceil_div(1, 1000), 1);
    assert_eq!(floor_div(i128::MIN, 1), i128::MIN);
    assert_eq!(floor_div(i128::MIN, 2), i128::MIN / 2);
    assert_eq!(ceil_div(i128::MAX, 2), i128::MAX / 2 + 1);
}

#[test]
fn scale_context_is_size_over_height() {
    let ctx = ScaleContext::derive(metrics(), 10);
    assert_eq!(ctx.target_size(), 10);
    assert_eq!(ctx.origin_height(), 1000);
    assert_eq!(ctx.units_per_em(), 1000);
    assert_eq!(ctx.ascent(), 800);
    assert_eq!(ctx.descent(), -200);
    assert_eq!(ctx.denominator_value(), 1_000_000);
    assert_eq!(ctx.scale_units(500), 5_000_000);
    assert_eq!(ctx.scale_units(-3), -30_000);
    assert_eq!(ctx.scale_pixels(2), 2_000_000);
    assert_eq!(ctx.scale_spacing(100), 1_000_000);
}

#[test]
fn degenerate_metrics_give_a_height_of_one() {
    let flat = FaceMetrics { units_per_em: 1000, ascent: 0, descent: 0 };
    assert_eq!(ScaleContext::derive(flat, 12).origin_height(), 1);
    let upside = FaceMetrics { units_per_em: 1000, ascent: -5, descent: 5 };
    assert_eq!(ScaleContext::derive(upside, 12).origin_height(), 1);
    let extreme = FaceMetrics { units_per_em: 1000, ascent: i32::MAX, descent: i32::MIN };
    assert_eq!(ScaleContext::derive(extreme, 12).origin_height(), u32::MAX);
    assert_eq!(ScaleContext::derive(extreme, u32::MAX).denominator_value(), 1000 * u32::MAX as i128);
}

#[test]
fn transcode_keeps_order_and_flips_y() {
    let outline = vec![
        OutlineCommand::MoveTo { x: 1, y: 2 },
        OutlineCommand::LineTo { x: 3, y: 4 },
        OutlineCommand::QuadTo { x1: 5, y1: 6, x: 7, y: 8 },
        OutlineCommand::CurveTo { x1: 9, y1: 10, x2: 11, y2: 12, x: 13, y: 14 },
        OutlineCommand::Close,
        OutlineCommand::MoveTo { x: -1, y: -2 },
        OutlineCommand::Close,
    ];
    let t = Transform { scale_x: 10, scale_y: -10, translate_x: 0, translate_y: 0 };
    assert_eq!(
        transcode(&outline, t),
        vec![
            PathCommand::MoveTo { x: 10, y: -20 },
            PathCommand::LineTo { x: 30, y: -40 },
            PathCommand::QuadTo { x1: 50, y1: -60, x: 70, y: -80 },
            PathCommand::CurveTo { x1: 90, y1: -100, x2: 110, y2: -120, x: 130, y: -140 },
            PathCommand::Close,
            PathCommand::MoveTo { x: -10, y: 20 },
            PathCommand::Close,
        ]
    );
}

#[test]
fn transcode_applies_the_translation() {
    let outline = vec![OutlineCommand::MoveTo { x: 2, y: 3 }];
    let t = Transform { scale_x: 4, scale_y: 5, translate_x: 100, translate_y: -100 };
    assert_eq!(transcode(&outline, t), vec![PathCommand::MoveTo { x: 108, y: -85 }]);
    let wide = Transform { scale_x: i64::MAX, scale_y: i64::MIN, translate_x: i64::MAX, translate_y: i64::MIN };
    assert_eq!(
        transcode(&vec![OutlineCommand::LineTo { x: i32::MAX, y: i32::MAX }], wide),
        vec![PathCommand::LineTo {
            x: i64::MAX as i128 + i32::MAX as i128 * i64::MAX as i128,
            y: i64::MIN as i128 + i32::MAX as i128 * i64::MIN as i128,
        }]
    );
}

#[test]
fn an_empty_outline_gives_empty_path_data() {
    let t = Transform { scale_x: 10, scale_y: -10, translate_x: 0, translate_y: 0 };
    assert_eq!(transcode(&Vec::new(), t), Vec::new());
}

#[test]
fn the_builder_collects_what_it_is_fed() {
    let mut b = GlyphPathBuilder::new(2, -2, 1, 1);
    assert_eq!(b.tx(10), 21);
    assert_eq!(b.ty(10), -19);
    b.move_to(0, 0);
    b.line_to(1, 1);
    b.quad_to(1, 2, 3, 4);
    b.curve_to(1, 2, 3, 4, 5, 6);
    b.close();
    b.command(OutlineCommand::LineTo { x: 7, y: 7 });
    assert_eq!(
        b.d,
        vec![
            PathCommand::MoveTo { x: 1, y: 1 },
            PathCommand::LineTo { x: 3, y: -1 },
            PathCommand::QuadTo { x1: 3, y1: -3, x: 7, y: -7 },
            PathCommand::CurveTo { x1: 3, y1: -3, x2: 7, y2: -7, x: 11, y: -11 },
            PathCommand::Close,
            PathCommand::LineTo { x: 15, y: -13 },
        ]
    );
}

#[test]
fn get_or_create_is_idempotent() {
    let ctx = ScaleContext::derive(metrics(), 10);
    let table = outlines();
    let mut cache = GlyphSymbolCache::new();
    assert_eq!(cache.len(), 0);
    let a = GlyphIdentity { face: 0, glyph: 1 };
    let b = GlyphIdentity { face: 0, glyph: 2 };
    assert_eq!(cache.lookup(a), None);
    let first = cache.get_or_create(a, &table, &ctx);
    let again = cache.get_or_create(a, &table, &ctx);
    assert_eq!(first, 0);
    assert_eq!(again, 0);
    assert_eq!(cache.len(), 1);
    let other = cache.get_or_create(b, &table, &ctx);
    assert_eq!(other, 1);
    assert_eq!(cache.get_or_create(a, &table, &ctx), 0);
    assert_eq!(cache.get_or_create(b, &table, &ctx), 1);
    assert_eq!(cache.len(), 2);
    assert_eq!(cache.lookup(a), Some(0));
    assert_eq!(cache.lookup(b), Some(1));
    assert_eq!(cache.lookup(GlyphIdentity { face: 1, glyph: 1 }), None);
}

#[test]
fn a_later_request_does_not_decode_again() {
    let ctx = ScaleContext::derive(metrics(), 10);
    let mut cache = GlyphSymbolCache::new();
    let a = GlyphIdentity { face: 0, glyph: 1 };
    assert_eq!(cache.get_or_create(a, &outlines(), &ctx), 0);
    let bigger = ScaleContext::derive(metrics(), 20);
    assert_eq!(cache.get_or_create(a, &GlyphOutlines::new(), &bigger), 0);
    let defs = cache.definitions();
    assert_eq!(defs.len(), 1);
    assert_eq!(defs[0].path.len(), 4);
    assert_eq!(defs[0].path[1], PathCommand::LineTo { x: 5_000_000, y: 0 });
}

#[test]
fn definitions_are_drawn_at_the_local_origin() {
    let ctx = ScaleContext::derive(metrics(), 10);
    let mut cache = GlyphSymbolCache::new();
    let a = GlyphIdentity { face: 0, glyph: 1 };
    cache.get_or_create(a, &outlines(), &ctx);
    let defs = cache.definitions();
    assert_eq!(defs[0].identity, a);
    assert_eq!(
        defs[0].path,
        vec![
            PathCommand::MoveTo { x: 0, y: 0 },
            PathCommand::LineTo { x: 5_000_000, y: 0 },
            PathCommand::LineTo { x: 2_500_000, y: -7_000_000 },
            PathCommand::Close,
        ]
    );
    assert!(cache.has_outline(0));
    assert!(!cache.has_outline(1));
}

#[test]
fn a_glyph_without_outline_is_defined_with_empty_path_data() {
    let ctx = ScaleContext::derive(metrics(), 10);
    let mut cache = GlyphSymbolCache::new();
    let space = cache.get_or_create(GlyphIdentity { face: 0, glyph: 3 }, &outlines(), &ctx);
    let unknown = cache.get_or_create(GlyphIdentity { face: 0, glyph: 77 }, &outlines(), &ctx);
    assert_eq!((space, unknown), (0, 1));
    assert!(!cache.has_outline(space));
    assert!(!cache.has_outline(unknown));
    assert_eq!(cache.definitions()[0].path, Vec::new());
    assert_eq!(cache.into_definitions().len(), 2);
}

#[test]
fn symbol_names_are_g_and_the_key() {
    assert_eq!(GlyphIdentity { face: 0, glyph: 0 }.symbol_name(), "g0");
    assert_eq!(GlyphIdentity { face: 0, glyph: 123 }.symbol_name(), "g123");
    assert_eq!(GlyphIdentity { face: 0, glyph: 65535 }.symbol_name(), "g65535");
    assert_eq!(GlyphIdentity { face: 1, glyph: 0 }.symbol_name(), "g65536");
    assert_eq!(GlyphIdentity { face: 6, glyph: 7 }.symbol_name(), "g393223");
    assert_eq!(GlyphIdentity { face: 255, glyph: 65535 }.key_value(), 16_777_215);
}

#[test]
fn repeated_glyph_has_one_definition_and_three_placements() {
    let ctx = ScaleContext::derive(metrics(), 10);
    let mut cache = GlyphSymbolCache::new();
    let run = vec![glyph(1, 500), glyph(1, 500), glyph(1, 500)];
    let line = layout_line(Point { x: 0, y: 0 }, &ctx, 0, 0, &run, &outlines(), &mut cache);
    assert_eq!(cache.len(), 1);
    assert_eq!(line.denominator, 1_000_000);
    assert_eq!(
        line.placements,
        vec![
            GlyphPlacement { symbol: 0, x: 0, y: 8_000_000 },
            GlyphPlacement { symbol: 0, x: 5_000_000, y: 8_000_000 },
            GlyphPlacement { symbol: 0, x: 10_000_000, y: 8_000_000 },
        ]
    );
    assert_eq!(line.cursor_x, 15_000_000);
    assert_eq!(line.bbox, LineBoundingBox { x_min: 0, y_min: -2, x_max: 15, y_max: 10 });
}

#[test]
fn letter_spacing_follows_visible_glyphs_only() {
    let ctx = ScaleContext::derive(metrics(), 10);
    let mut cache = GlyphSymbolCache::new();
    // visible, space, visible, visible: spacing after glyph 0 and glyph 2, and
    // as trailing room after the last one.
    let run = vec![glyph(1, 500), glyph(3, 250), glyph(2, 500), glyph(1, 500)];
    let line = layout_line(Point { x: 0, y: 0 }, &ctx, 100, 0, &run, &outlines(), &mut cache);
    let xs: Vec<i128> = line.placements.iter().map(|p| p.x).collect();
    assert_eq!(xs, vec![0, 6_000_000, 8_500_000, 14_500_000]);
    let symbols: Vec<usize> = line.placements.iter().map(|p| p.symbol).collect();
    assert_eq!(symbols, vec![0, 1, 2, 0]);
    assert_eq!(line.cursor_x, 19_500_000);
    assert_eq!(line.bbox.x_max, 21);
    assert_eq!(cache.len(), 3);
}

#[test]
fn no_trailing_room_after_a_glyph_without_outline() {
    let ctx = ScaleContext::derive(metrics(), 10);
    let mut cache = GlyphSymbolCache::new();
    let run = vec![glyph(1, 500), glyph(3, 250)];
    let line = layout_line(Point { x: 0, y: 0 }, &ctx, 100, 0, &run, &outlines(), &mut cache);
    assert_eq!(line.cursor_x, 8_500_000);
    assert_eq!(line.bbox.x_max, 9);
}

#[test]
fn a_glyph_without_advance_and_outline_is_still_placed() {
    let ctx = ScaleContext::derive(metrics(), 10);
    let mut cache = GlyphSymbolCache::new();
    let run = vec![glyph(1, 500), glyph(3, 0)];
    let line = layout_line(Point { x: 0, y: 0 }, &ctx, 100, 0, &run, &outlines(), &mut cache);
    assert_eq!(line.placements.len(), 2);
    assert_eq!(line.placements[1], GlyphPlacement { symbol: 1, x: 6_000_000, y: 8_000_000 });
    // The cursor before the second glyph stands at 6 px; the box reaches it.
    assert_eq!(line.bbox.x_max, 6);
    assert!(line.bbox.x_max as i128 * line.denominator >= line.placements[1].x);
    let alone = layout_line(Point { x: 3, y: 0 }, &ctx, 100, 0, &vec![glyph(3, 0)], &outlines(), &mut cache);
    assert_eq!(alone.placements, vec![GlyphPlacement { symbol: 1, x: 3_000_000, y: 8_000_000 }]);
    assert_eq!(alone.bbox, LineBoundingBox { x_min: 3, y_min: -2, x_max: 3, y_max: 10 });
    assert_eq!(alone.cursor_x, 3_000_000);
}

#[test]
fn a_negative_offset_can_leave_the_box_short_of_the_cursor() {
    let ctx = ScaleContext::derive(metrics(), 10);
    let mut cache = GlyphSymbolCache::new();
    let back = ShapedGlyph { glyph: 3, x_advance: 0, y_advance: 0, x_offset: -500, y_offset: 0 };
    let run = vec![glyph(1, 500), back];
    let line = layout_line(Point { x: 0, y: 0 }, &ctx, 100, 0, &run, &outlines(), &mut cache);
    assert_eq!(line.placements[1].x, 1_000_000);
    assert_eq!(line.bbox.x_max, 5);
    assert_eq!(line.cursor_x, 6_000_000);
}

#[test]
fn offsets_move_the_glyph_and_not_the_cursor() {
    let ctx = ScaleContext::derive(metrics(), 10);
    let mut cache = GlyphSymbolCache::new();
    let moved = ShapedGlyph { glyph: 1, x_advance: 500, y_advance: 9, x_offset: -50, y_offset: 100 };
    let run = vec![moved, glyph(2, 500)];
    let line = layout_line(Point { x: 1, y: 2 }, &ctx, 0, 0, &run, &outlines(), &mut cache);
    assert_eq!(
        line.placements,
        vec![
            GlyphPlacement { symbol: 0, x: 500_000, y: 9_000_000 },
            GlyphPlacement { symbol: 1, x: 6_000_000, y: 10_000_000 },
        ]
    );
    assert_eq!(line.cursor_x, 11_000_000);
    // x_min = floor(0.5), y_min = floor(9 - 10), x_max = ceil(11), y_max = 2 + 10.
    assert_eq!(line.bbox, LineBoundingBox { x_min: 0, y_min: -1, x_max: 11, y_max: 12 });
}

#[test]
fn an_empty_run_is_a_box_at_the_origin() {
    let ctx = ScaleContext::derive(metrics(), 10);
    let mut cache = GlyphSymbolCache::new();
    let line = layout_line(Point { x: -4, y: 7 }, &ctx, 100, 0, &Vec::new(), &outlines(), &mut cache);
    assert_eq!(line.placements, Vec::new());
    assert_eq!(line.cursor_x, -4_000_000);
    assert_eq!(line.bbox, LineBoundingBox { x_min: -4, y_min: 15, x_max: -4, y_max: 17 });
    assert_eq!(cache.len(), 0);
}

#[test]
fn bounds_are_rounded_outwards() {
    let ctx = ScaleContext::derive(FaceMetrics { units_per_em: 1000, ascent: 750, descent: -250 }, 3);
    let mut cache = GlyphSymbolCache::new();
    let run = vec![ShapedGlyph { glyph: 1, x_advance: 333, y_advance: 0, x_offset: -1, y_offset: 0 }];
    let line = layout_line(Point { x: 0, y: 0 }, &ctx, 0, 0, &run, &outlines(), &mut cache);
    // One unit is 3/1000 px: the glyph stands at -0.003 px and ends at 0.996 px.
    assert_eq!(line.placements[0].x, -3000);
    assert_eq!(line.cursor_x, 999_000);
    assert_eq!(line.bbox.x_min, -1);
    assert_eq!(line.bbox.x_max, 1);
    // The baseline lies at 2.25 px, the top one line height above it.
    assert_eq!(line.placements[0].y, 2_250_000);
    assert_eq!(line.bbox.y_min, -1);
    assert_eq!(line.bbox.y_max, 3);
}

#[test]
fn bounds_are_clamped_to_the_range_of_i64() {
    let ctx = ScaleContext::derive(metrics(), 10);
    let mut cache = GlyphSymbolCache::new();
    let run = vec![glyph(1, i32::MAX)];
    let line = layout_line(Point { x: i64::MAX, y: i64::MAX }, &ctx, 0, 0, &run, &outlines(), &mut cache);
    assert_eq!(line.bbox.x_max, i64::MAX);
    assert_eq!(line.bbox.y_max, i64::MAX);
    assert_eq!(line.bbox.x_min, i64::MAX);
    let line = layout_line(Point { x: i64::MIN, y: i64::MIN }, &ctx, 0, 0, &vec![glyph(1, i32::MIN)], &outlines(), &mut cache);
    assert_eq!(line.bbox.x_min, i64::MIN);
    assert_eq!(line.bbox.y_min, i64::MIN);
    assert_eq!(line.cursor_x, i64::MIN as i128 * 1_000_000 + i32::MIN as i128 * 10_000);
}

#[test]
fn glyphs_of_different_faces_do_not_meet() {
    let ctx = ScaleContext::derive(metrics(), 10);
    let mut cache = GlyphSymbolCache::new();
    let run = vec![glyph(1, 500)];
    let regular = layout_line(Point { x: 0, y: 0 }, &ctx, 0, 0, &run, &outlines(), &mut cache);
    let bold = layout_line(Point { x: 0, y: 0 }, &ctx, 0, 6, &run, &GlyphOutlines::new(), &mut cache);
    assert_eq!(regular.placements[0].symbol, 0);
    assert_eq!(bold.placements[0].symbol, 1);
    let defs = cache.definitions();
    assert_eq!(defs[0].identity, GlyphIdentity { face: 0, glyph: 1 });
    assert_eq!(defs[1].identity, GlyphIdentity { face: 6, glyph: 1 });
    assert_eq!(defs[1].path, Vec::new());
}

#[test]
fn path_config_names() {
    let config = PathConfig::default();
    assert_eq!(config.stroke_width, 1);
    assert_eq!(config.get_stroke_linejoin(), "round");
    assert_eq!(config.get_stroke_linecap(), "round");
    let all = [
        (StrokeLineJoin::Miter, "miter"),
        (StrokeLineJoin::MiterClip, "miter"),
        (StrokeLineJoin::Round, "round"),
        (StrokeLineJoin::Bevel, "bevel"),
    ];
    for (join, name) in all {
        let c = PathConfig { stroke_width: 1, stroke_linecap: StrokeLineCap::Butt, stroke_linejoin: join };
        assert_eq!(c.get_stroke_linejoin(), name);
        assert_eq!(c.get_stroke_linecap(), "butt");
    }
    let square = PathConfig { stroke_width: 2, stroke_linecap: StrokeLineCap::Square, stroke_linejoin: StrokeLineJoin::Bevel };
    assert_eq!(square.get_stroke_linecap(), "square");
}

#[test]
fn text_builder_starts_at_the_origin() {
    let mut builder = TextBuilder::new();
    assert_eq!(builder, TextBuilder::default());
    assert_eq!(builder.origin, Point { x: 0, y: 0 });
    assert_eq!(builder.path_config, PathConfig::default());
    builder.set_origin(Point { x: 3, y: 4 }).set_origin(Point { x: 5, y: 6 });
    assert_eq!(builder.origin, Point { x: 5, y: 6 });
}
