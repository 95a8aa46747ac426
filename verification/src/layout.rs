//! Line layout: a run of shaped glyphs becomes positioned references to
//! symbols, an advanced cursor and a bounding box.
//!
//! All horizontal and vertical positions are scaled positions: integer
//! numerators over the denominator of the run's scale context.

use vstd::prelude::*;
use crate::cache::{
    GlyphIdentity, GlyphOutlines, GlyphSymbolCache, Symbol, distinct, lemma_position_of,
    position_of, symbols_after,
};
use crate::font::{FontConfig, FontStyle, face_index, resolve_style};
use crate::scale::{ScaleContext, ceil_div, ceil_div_spec, floor_div, floor_div_spec};

verus! {

/// The most glyphs that one run may hold. Up to so many, every position of
/// a run fits its integer type whatever the glyphs' advances are.
pub const MAX_RUN_GLYPHS: usize = 0xFFFF_FFFF;

/// One glyph as the shaping engine gives it, in design units.
#[derive(Clone, Copy, Debug, PartialEq, Eq, Structural)]
pub struct ShapedGlyph {
    /// The glyph's index within its face.
    pub glyph: u16,
    /// How far the cursor moves to the right after the glyph.
    pub x_advance: i32,
    /// How far the cursor moves up after the glyph; not used by horizontal
    /// layout.
    pub y_advance: i32,
    /// How far the glyph is moved to the right of the cursor.
    pub x_offset: i32,
    /// How far the glyph is moved up from the baseline.
    pub y_offset: i32,
}

/// A point in whole pixels.
#[derive(Clone, Copy, Debug, PartialEq, Eq, Structural)]
pub struct Point {
    pub x: i64,
    pub y: i64,
}

/// One occurrence of a glyph: the symbol it refers to and where it stands,
/// in scaled positions.
#[derive(Clone, Copy, Debug, PartialEq, Eq, Structural)]
pub struct GlyphPlacement {
    /// Index of the definition in the document's symbol table.
    pub symbol: usize,
    pub x: i128,
    pub y: i128,
}

/// The box around one laid out run, in whole pixels. Each bound is clamped
/// to the range of `i64`.
#[derive(Clone, Copy, Debug, PartialEq, Eq, Structural)]
pub struct LineBoundingBox {
    pub x_min: i64,
    pub y_min: i64,
    pub x_max: i64,
    pub y_max: i64,
}

/// What the layout of one run gives.
#[derive(Debug)]
pub struct LineLayout {
    /// One placement per glyph of the run, in the run's order.
    pub placements: Vec<GlyphPlacement>,
    /// The cursor after the last glyph's advance, as a scaled position.
    pub cursor_x: i128,
    /// The box around the run.
    pub bbox: LineBoundingBox,
    /// The denominator of the scaled positions.
    pub denominator: i128,
}

/// The fixed inputs of one run: where it starts, at what scale, and with
/// what letter spacing in thousandths of an em.
pub struct RunGeometry {
    pub origin: Point,
    pub ctx: ScaleContext,
    pub letter_space: i32,
}

impl RunGeometry {
    /// Where the cursor starts, as a scaled position.
    pub open spec fn start(self) -> int {
        self.ctx.pixels(self.origin.x as int)
    }

    /// The baseline: the origin's y moved down by the scaled ascent.
    pub open spec fn baseline(self) -> int {
        self.ctx.pixels(self.origin.y as int) + self.ctx.scaled(self.ctx.face().ascent as int)
    }

    /// The scaled letter spacing.
    pub open spec fn spacing(self) -> int {
        self.ctx.spacing(self.letter_space as int)
    }

    /// The scaled line height: the target size.
    pub open spec fn line_height(self) -> int {
        self.ctx.pixels(self.ctx.size())
    }
}

/// The identity of a glyph of the face in slot `face`.
pub open spec fn identity_of(face: u8, g: ShapedGlyph) -> GlyphIdentity {
    GlyphIdentity { face, glyph: g.glyph }
}

/// Whether the table defines the glyph with a visible outline.
pub open spec fn glyph_visible(symbols: Seq<Symbol>, identity: GlyphIdentity) -> bool {
    let p = position_of(symbols, identity);
    p >= 0 && symbols[p].path.len() > 0
}

/// The symbol table after every glyph of the run was asked for, in order.
pub open spec fn run_symbols(
    symbols: Seq<Symbol>,
    face: u8,
    glyphs: Seq<ShapedGlyph>,
    outlines: GlyphOutlines,
    ctx: ScaleContext,
) -> Seq<Symbol>
    decreases glyphs.len(),
{
    if glyphs.len() == 0 {
        symbols
    } else {
        symbols_after(
            run_symbols(symbols, face, glyphs.drop_last(), outlines, ctx),
            identity_of(face, glyphs.last()),
            outlines.outline_of(glyphs.last().glyph),
            ctx,
        )
    }
}

/// For each glyph of the run, whether the table defines it with a visible
/// outline.
pub open spec fn visibility(symbols: Seq<Symbol>, face: u8, glyphs: Seq<ShapedGlyph>) -> Seq<bool> {
    Seq::new(glyphs.len(), |i: int| glyph_visible(symbols, identity_of(face, glyphs[i])))
}

/// Where the cursor stands for the glyph that would follow the run: after
/// each glyph's advance, and after one letter spacing for each glyph with a
/// visible outline. No spacing precedes the first glyph, and none follows a
/// glyph without outline.
pub open spec fn pen_after(geo: RunGeometry, glyphs: Seq<ShapedGlyph>, vis: Seq<bool>) -> int
    decreases glyphs.len(),
{
    if glyphs.len() == 0 {
        geo.start()
    } else {
        pen_after(geo, glyphs.drop_last(), vis.drop_last()) + geo.ctx.scaled(glyphs.last().x_advance as int)
            + if vis.last() {
            geo.spacing()
        } else {
            0
        }
    }
}

/// Where glyph `i` of the run is placed horizontally.
pub open spec fn place_x(geo: RunGeometry, glyphs: Seq<ShapedGlyph>, vis: Seq<bool>, i: int) -> int {
    pen_after(geo, glyphs.take(i), vis.take(i)) + geo.ctx.scaled(glyphs[i].x_offset as int)
}

/// Where a glyph is placed vertically.
pub open spec fn place_y(geo: RunGeometry, g: ShapedGlyph) -> int {
    geo.baseline() - geo.ctx.scaled(g.y_offset as int)
}

/// The cursor after the last glyph's advance; no spacing follows it.
pub open spec fn cursor_end(geo: RunGeometry, glyphs: Seq<ShapedGlyph>, vis: Seq<bool>) -> int {
    if glyphs.len() == 0 {
        geo.start()
    } else {
        pen_after(geo, glyphs.drop_last(), vis.drop_last()) + geo.ctx.scaled(glyphs.last().x_advance as int)
    }
}

/// The least of the start and of every glyph's horizontal place.
pub open spec fn min_x(geo: RunGeometry, glyphs: Seq<ShapedGlyph>, vis: Seq<bool>) -> int
    decreases glyphs.len(),
{
    if glyphs.len() == 0 {
        geo.start()
    } else {
        let rest = min_x(geo, glyphs.drop_last(), vis.drop_last());
        let here = place_x(geo, glyphs, vis, glyphs.len() - 1);
        if here < rest {
            here
        } else {
            rest
        }
    }
}

/// The greatest of the start and of every glyph's place plus its advance.
pub open spec fn max_x(geo: RunGeometry, glyphs: Seq<ShapedGlyph>, vis: Seq<bool>) -> int
    decreases glyphs.len(),
{
    if glyphs.len() == 0 {
        geo.start()
    } else {
        let rest = max_x(geo, glyphs.drop_last(), vis.drop_last());
        let here = place_x(geo, glyphs, vis, glyphs.len() - 1) + geo.ctx.scaled(
            glyphs.last().x_advance as int,
        );
        if here > rest {
            here
        } else {
            rest
        }
    }
}

/// The least of the baseline and of every glyph's vertical place moved up by
/// one line height.
pub open spec fn min_y(geo: RunGeometry, glyphs: Seq<ShapedGlyph>) -> int
    decreases glyphs.len(),
{
    if glyphs.len() == 0 {
        geo.baseline()
    } else {
        let rest = min_y(geo, glyphs.drop_last());
        let here = place_y(geo, glyphs.last()) - geo.line_height();
        if here < rest {
            here
        } else {
            rest
        }
    }
}

/// The room kept after the run: one letter spacing where the last glyph has
/// a visible outline.
pub open spec fn trailing(geo: RunGeometry, glyphs: Seq<ShapedGlyph>, vis: Seq<bool>) -> int {
    if glyphs.len() > 0 && vis.last() {
        geo.spacing()
    } else {
        0
    }
}

/// `v` brought into the range of `i64`.
pub open spec fn clamp_i64(v: int) -> i64 {
    if v < i64::MIN {
        i64::MIN
    } else if v > i64::MAX {
        i64::MAX
    } else {
        v as i64
    }
}

/// The box around a run: the horizontal bounds rounded outwards to whole
/// pixels, the top taken from the glyphs' places and the line height, the
/// bottom one line height below the origin.
pub open spec fn bbox_of(geo: RunGeometry, glyphs: Seq<ShapedGlyph>, vis: Seq<bool>) -> LineBoundingBox {
    LineBoundingBox {
        x_min: clamp_i64(floor_div_spec(min_x(geo, glyphs, vis), geo.ctx.denominator())),
        y_min: clamp_i64(floor_div_spec(min_y(geo, glyphs), geo.ctx.denominator())),
        x_max: clamp_i64(
            ceil_div_spec(max_x(geo, glyphs, vis) + trailing(geo, glyphs, vis), geo.ctx.denominator()),
        ),
        y_max: clamp_i64(geo.origin.y + geo.ctx.size()),
    }
}

/// Brings a value into the range of `i64`.
pub fn clamp_to_i64(v: i128) -> (r: i64)
    ensures
        r == clamp_i64(v as int),
{
    if v < i64::MIN as i128 {
        i64::MIN
    } else if v > i64::MAX as i128 {
        i64::MAX
    } else {
        v as i64
    }
}

/// Whether `p` is the placement of glyph `i` of a run, given the symbol
/// table that the run leaves: it refers to the glyph's definition and stands
/// at the glyph's place.
pub open spec fn is_placement_of(
    p: GlyphPlacement,
    geo: RunGeometry,
    symbols: Seq<Symbol>,
    face: u8,
    glyphs: Seq<ShapedGlyph>,
    i: int,
) -> bool {
    &&& p.symbol as int == position_of(symbols, identity_of(face, glyphs[i]))
    &&& p.x as int == place_x(geo, glyphs, visibility(symbols, face, glyphs), i)
    &&& p.y as int == place_y(geo, glyphs[i])
}

/// Whether `line` is the layout of a run, given the symbol table that the run
/// leaves: one placement per glyph, the advanced cursor and the box.
pub open spec fn is_layout_of(
    line: LineLayout,
    geo: RunGeometry,
    symbols: Seq<Symbol>,
    face: u8,
    glyphs: Seq<ShapedGlyph>,
) -> bool {
    &&& line.denominator == geo.ctx.denominator()
    &&& line.placements@.len() == glyphs.len()
    &&& forall|i: int|
        0 <= i < glyphs.len() ==> is_placement_of(
            #[trigger] line.placements@[i],
            geo,
            symbols,
            face,
            glyphs,
            i,
        )
    &&& line.cursor_x == cursor_end(geo, glyphs, visibility(symbols, face, glyphs))
    &&& line.bbox == bbox_of(geo, glyphs, visibility(symbols, face, glyphs))
}

/// Whether every placement of a layout refers to a definition of the table,
/// and to that of its own glyph.
pub open spec fn refers_to(line: LineLayout, symbols: Seq<Symbol>, face: u8, glyphs: Seq<ShapedGlyph>) -> bool {
    &&& line.placements@.len() == glyphs.len()
    &&& forall|i: int|
        0 <= i < glyphs.len() ==> (#[trigger] line.placements@[i]).symbol < symbols.len()
            && symbols[line.placements@[i].symbol as int].identity == identity_of(face, glyphs[i])
}

/// Whether one of the placements refers to `symbol`.
pub open spec fn placed(placements: Seq<GlyphPlacement>, symbol: int) -> bool {
    exists|i: int| 0 <= i < placements.len() && (#[trigger] placements[i]).symbol == symbol
}

/// Whether the placements refer to every symbol from `before` up to, and
/// without, `after`: to every symbol that was defined for them.
pub open spec fn refers_to_new(placements: Seq<GlyphPlacement>, before: nat, after: nat) -> bool {
    forall|k: int| before <= k < after ==> #[trigger] placed(placements, k)
}

/// Whether `after` begins with all of `before`, unchanged.
pub open spec fn extends(after: Seq<Symbol>, before: Seq<Symbol>) -> bool {
    before.len() <= after.len() && after.take(before.len() as int) == before
}

/// Asking for the glyphs of a run only ever appends to the symbol table.
pub proof fn lemma_run_symbols_extends(
    symbols: Seq<Symbol>,
    face: u8,
    glyphs: Seq<ShapedGlyph>,
    outlines: GlyphOutlines,
    ctx: ScaleContext,
)
    ensures
        extends(run_symbols(symbols, face, glyphs, outlines, ctx), symbols),
    decreases glyphs.len(),
{
    if glyphs.len() == 0 {
        assert(symbols.take(symbols.len() as int) =~= symbols);
    } else {
        lemma_run_symbols_extends(symbols, face, glyphs.drop_last(), outlines, ctx);
        let mid = run_symbols(symbols, face, glyphs.drop_last(), outlines, ctx);
        let after = run_symbols(symbols, face, glyphs, outlines, ctx);
        assert(after.take(symbols.len() as int) =~= mid.take(symbols.len() as int));
    }
}

/// A glyph that the table defines stays where it is, with its path data,
/// when another glyph is asked for.
pub proof fn lemma_symbols_after_keeps(
    symbols: Seq<Symbol>,
    identity: GlyphIdentity,
    outline: Seq<crate::outline::OutlineCommand>,
    ctx: ScaleContext,
    other: GlyphIdentity,
)
    requires
        position_of(symbols, other) >= 0,
    ensures
        position_of(symbols_after(symbols, identity, outline, ctx), other) == position_of(
            symbols,
            other,
        ),
        glyph_visible(symbols_after(symbols, identity, outline, ctx), other) == glyph_visible(
            symbols,
            other,
        ),
{
    lemma_position_of(symbols, other);
    lemma_position_of(symbols, identity);
    let after = symbols_after(symbols, identity, outline, ctx);
    if position_of(symbols, identity) < 0 {
        assert(after.drop_last() =~= symbols);
        assert(after.last().identity == identity);
        assert(identity != other);
    }
}

/// Lays out one run of shaped glyphs.
///
/// The cursor starts at the origin's x; the baseline lies the scaled ascent
/// below the origin's y. Each glyph is resolved through the cache, placed at
/// the cursor moved by its offsets, and advances the cursor. One letter
/// spacing follows each glyph with a visible outline, also the last one, where
/// it widens the box only.
pub fn layout_line(
    origin: Point,
    ctx: &ScaleContext,
    letter_space: i32,
    face: u8,
    glyphs: &Vec<ShapedGlyph>,
    outlines: &GlyphOutlines,
    cache: &mut GlyphSymbolCache,
) -> (line: LineLayout)
    requires
        glyphs.len() <= MAX_RUN_GLYPHS,
    ensures
        final(cache).symbols() == run_symbols(
            old(cache).symbols(),
            face,
            glyphs@,
            *outlines,
            *ctx,
        ),
        is_layout_of(
            line,
            (RunGeometry { origin, ctx: *ctx, letter_space }),
            final(cache).symbols(),
            face,
            glyphs@,
        ),
        refers_to(line, final(cache).symbols(), face, glyphs@),
        refers_to_new(
            line.placements@,
            old(cache).symbols().len(),
            final(cache).symbols().len(),
        ),
        extends(final(cache).symbols(), old(cache).symbols()),
        distinct(final(cache).symbols()),
{
    let ghost geo = RunGeometry { origin, ctx: *ctx, letter_space };
    let ghost all = glyphs@;
    let n = glyphs.len();
    let denominator = ctx.denominator_value();
    let start = ctx.scale_pixels(origin.x);
    let baseline = ctx.scale_pixels(origin.y) + ctx.scale_units(ctx.ascent());
    let spacing = ctx.scale_spacing(letter_space);
    let line_height = ctx.scale_pixels(ctx.target_size() as i64);
    let mut placements: Vec<GlyphPlacement> = Vec::new();
    let mut pen: i128 = start;
    let mut end: i128 = start;
    let mut left: i128 = start;
    let mut right: i128 = start;
    let mut top: i128 = baseline;
    let mut last_visible = false;
    let ghost mut vis: Seq<bool> = Seq::empty();
    let mut i: usize = 0;
    proof {
        assert(all.take(0) =~= Seq::<ShapedGlyph>::empty());
    }
    while i < n
        invariant
            i <= n == glyphs.len(),
            n <= MAX_RUN_GLYPHS,
            all == glyphs@,
            geo == (RunGeometry { origin, ctx: *ctx, letter_space }),
            start == geo.start(),
            baseline == geo.baseline(),
            spacing == geo.spacing(),
            line_height == geo.line_height(),
            -0x2_0000_0000_0000_0000_0000_0000_0000 <= start
                <= 0x2_0000_0000_0000_0000_0000_0000_0000,
            -0x2_0000_0000_0000_0000_0000_0000_0000 - 0x200_0000_0000_0000_0000 <= baseline
                <= 0x2_0000_0000_0000_0000_0000_0000_0000 + 0x200_0000_0000_0000_0000,
            -0x8000_0000_0000_0000_0000 <= spacing <= 0x8000_0000_0000_0000_0000,
            -0x2_0000_0000_0000_0000_0000_0000_0000 <= line_height
                <= 0x2_0000_0000_0000_0000_0000_0000_0000,
            cache.symbols() == run_symbols(
                old(cache).symbols(),
                face,
                all.take(i as int),
                *outlines,
                *ctx,
            ),
            vis.len() == i,
            forall|j: int|
                0 <= j < i ==> position_of(cache.symbols(), identity_of(face, #[trigger] all[j]))
                    >= 0,
            forall|j: int|
                0 <= j < i ==> #[trigger] vis[j] == glyph_visible(
                    cache.symbols(),
                    identity_of(face, all[j]),
                ),
            last_visible == (i > 0 && vis.last()),
            pen == pen_after(geo, all.take(i as int), vis),
            end == cursor_end(geo, all.take(i as int), vis),
            left == min_x(geo, all.take(i as int), vis),
            right == max_x(geo, all.take(i as int), vis),
            top == min_y(geo, all.take(i as int)),
            start - i * 0x1_0000_0000_0000_0000_0000 <= pen <= start + i
                * 0x1_0000_0000_0000_0000_0000,
            start - i * 0x1_0000_0000_0000_0000_0000 <= end <= start + i
                * 0x1_0000_0000_0000_0000_0000,
            start - (i + 1) * 0x1_0000_0000_0000_0000_0000 <= left <= start,
            start <= right <= start + (i + 1) * 0x1_0000_0000_0000_0000_0000,
            baseline - 0x200_0000_0000_0000_0000 - 0x2_0000_0000_0000_0000_0000_0000_0000 <= top
                <= baseline,
            placements@.len() == i,
            old(cache).symbols().len() <= cache.symbols().len(),
            refers_to_new(placements@, old(cache).symbols().len(), cache.symbols().len()),
            forall|j: int|
                0 <= j < i ==> (#[trigger] placements@[j]).symbol as int == position_of(
                    cache.symbols(),
                    identity_of(face, all[j]),
                ),
            forall|j: int|
                0 <= j < i ==> (#[trigger] placements@[j]).x == pen_after(
                    geo,
                    all.take(j),
                    vis.take(j),
                ) + ctx.scaled(all[j].x_offset as int),
            forall|j: int| 0 <= j < i ==> (#[trigger] placements@[j]).y == place_y(geo, all[j]),
        decreases n - i,
    {
        let g = glyphs[i];
        let identity = GlyphIdentity { face, glyph: g.glyph };
        let ghost before = cache.symbols();
        let ghost old_vis = vis;
        let ghost placed_before = placements@;
        let symbol = cache.get_or_create(identity, outlines, ctx);
        let visible = cache.has_outline(symbol);
        let advance = ctx.scale_units(g.x_advance);
        let x = pen + ctx.scale_units(g.x_offset);
        let y = baseline - ctx.scale_units(g.y_offset);
        placements.push(GlyphPlacement { symbol, x, y });
        if x < left {
            left = x;
        }
        if x + advance > right {
            right = x + advance;
        }
        if y - line_height < top {
            top = y - line_height;
        }
        end = pen + advance;
        pen = if visible {
            end + spacing
        } else {
            end
        };
        last_visible = visible;
        proof {
            vis = vis.push(visible);
            let now = all.take(i + 1);
            let earlier = all.take(i as int);
            assert(now.drop_last() =~= earlier);
            assert(now.last() == g);
            assert(now.take(i as int) =~= earlier);
            assert(vis.drop_last() =~= old_vis);
            assert(vis.take(i as int) =~= old_vis);
            lemma_position_of(cache.symbols(), identity);
            lemma_position_of(before, identity);
            assert(visible == glyph_visible(cache.symbols(), identity));
            assert forall|j: int| 0 <= j < i implies position_of(
                cache.symbols(),
                identity_of(face, #[trigger] all[j]),
            ) == position_of(before, identity_of(face, all[j])) && glyph_visible(
                cache.symbols(),
                identity_of(face, all[j]),
            ) == glyph_visible(before, identity_of(face, all[j])) by {
                lemma_symbols_after_keeps(
                    before,
                    identity,
                    outlines.outline_of(g.glyph),
                    *ctx,
                    identity_of(face, all[j]),
                );
            }
            assert forall|j: int| 0 <= j < i + 1 implies (#[trigger] placements@[j]).x
                == pen_after(geo, all.take(j), vis.take(j)) + ctx.scaled(
                all[j].x_offset as int,
            ) by {
                assert(vis.take(j) =~= old_vis.take(j));
            }
            assert forall|k: int|
                old(cache).symbols().len() <= k < cache.symbols().len() implies #[trigger] placed(
                placements@,
                k,
            ) by {
                if k < before.len() {
                    assert(placed(placed_before, k));
                    let j = choose|j: int|
                        0 <= j < placed_before.len() && (#[trigger] placed_before[j]).symbol == k;
                    assert(placements@[j] == placed_before[j]);
                } else {
                    assert(placements@[i as int].symbol == k);
                }
            }
        }
        i += 1;
    }
    proof {
        assert(all.take(n as int) =~= all);
        let shown = visibility(cache.symbols(), face, all);
        assert(shown =~= vis);
        assert forall|j: int| 0 <= j < n implies is_placement_of(
            #[trigger] placements@[j],
            geo,
            cache.symbols(),
            face,
            all,
            j,
        ) && placements@[j].symbol < cache.symbols().len()
            && cache.symbols()[placements@[j].symbol as int].identity == identity_of(
            face,
            all[j],
        ) by {
            lemma_position_of(cache.symbols(), identity_of(face, all[j]));
        }
        lemma_run_symbols_extends(old(cache).symbols(), face, all, *outlines, *ctx);
    }
    cache.distinct_symbols();
    let trailing_room = if last_visible {
        spacing
    } else {
        0
    };
    let bbox = LineBoundingBox {
        x_min: clamp_to_i64(floor_div(left, denominator)),
        y_min: clamp_to_i64(floor_div(top, denominator)),
        x_max: clamp_to_i64(ceil_div(right + trailing_room, denominator)),
        y_max: clamp_to_i64(origin.y as i128 + ctx.target_size() as i128),
    };
    LineLayout { placements, cursor_x: end, bbox, denominator }
}


/// The shape at the end of an open subpath when it is stroked.
#[derive(Debug, Clone, Copy, PartialEq, Eq, Structural)]
pub enum StrokeLineCap {
    Butt,
    Round,
    Square,
}

/// The shape at the corners of a path when it is stroked.
#[derive(Debug, Clone, Copy, PartialEq, Eq, Structural)]
pub enum StrokeLineJoin {
    Miter,
    MiterClip,
    Round,
    Bevel,
}

/// How the paths of a run are stroked.
#[derive(Debug, Clone, Copy, PartialEq, Eq, Structural)]
pub struct PathConfig {
    /// The stroke width in pixels.
    pub stroke_width: u32,
    pub stroke_linecap: StrokeLineCap,
    pub stroke_linejoin: StrokeLineJoin,
}

/// The name of a line join. A clipped miter is written as a miter.
pub open spec fn linejoin_name(join: StrokeLineJoin) -> Seq<char> {
    match join {
        StrokeLineJoin::Round => "round"@,
        StrokeLineJoin::Miter => "miter"@,
        StrokeLineJoin::Bevel => "bevel"@,
        StrokeLineJoin::MiterClip => "miter"@,
    }
}

/// The name of a line cap.
pub open spec fn linecap_name(cap: StrokeLineCap) -> Seq<char> {
    match cap {
        StrokeLineCap::Round => "round"@,
        StrokeLineCap::Butt => "butt"@,
        StrokeLineCap::Square => "square"@,
    }
}

impl PathConfig {
    /// The line join as the document names it.
    pub fn get_stroke_linejoin(&self) -> (s: String)
        ensures
            s@ == linejoin_name(self.stroke_linejoin),
    {
        match self.stroke_linejoin {
            StrokeLineJoin::Round => "round".to_owned(),
            StrokeLineJoin::Miter => "miter".to_owned(),
            StrokeLineJoin::Bevel => "bevel".to_owned(),
            StrokeLineJoin::MiterClip => "miter".to_owned(),
        }
    }

    /// The line cap as the document names it.
    pub fn get_stroke_linecap(&self) -> (s: String)
        ensures
            s@ == linecap_name(self.stroke_linecap),
    {
        match self.stroke_linecap {
            StrokeLineCap::Round => "round".to_owned(),
            StrokeLineCap::Butt => "butt".to_owned(),
            StrokeLineCap::Square => "square".to_owned(),
        }
    }
}

impl Default for PathConfig {
    fn default() -> (config: PathConfig)
        ensures
            config == (PathConfig {
                stroke_width: 1,
                stroke_linecap: StrokeLineCap::Round,
                stroke_linejoin: StrokeLineJoin::Round,
            }),
    {
        PathConfig {
            stroke_width: 1,
            stroke_linejoin: StrokeLineJoin::Round,
            stroke_linecap: StrokeLineCap::Round,
        }
    }
}

/// Why a run could not be laid out.
#[derive(Debug, Clone, Copy, PartialEq, Eq, Structural)]
pub enum LayoutError {
    /// The family has neither a face of the requested style nor a regular
    /// face.
    FaceUnavailable,
}

/// Lays out runs from an origin, in the faces of a font configuration.
#[derive(Debug, Clone, Copy, PartialEq, Eq, Structural)]
pub struct TextBuilder {
    /// The top left corner at which a run starts, in whole pixels.
    pub origin: Point,
    pub path_config: PathConfig,
}

impl Default for TextBuilder {
    fn default() -> (builder: TextBuilder)
        ensures
            builder == (TextBuilder {
                origin: Point { x: 0, y: 0 },
                path_config: PathConfig {
                    stroke_width: 1,
                    stroke_linecap: StrokeLineCap::Round,
                    stroke_linejoin: StrokeLineJoin::Round,
                },
            }),
    {
        TextBuilder { origin: Point { x: 0, y: 0 }, path_config: PathConfig::default() }
    }
}

/// The geometry of a run that a builder lays out in the face that serves
/// `style`.
pub open spec fn builder_geometry(
    origin: Point,
    config: crate::font::FontConfigView,
    resolved: FontStyle,
) -> RunGeometry {
    RunGeometry {
        origin,
        ctx: ScaleContext::of(
            config.faces[face_index(config.faces, resolved)].face.metrics,
            config.size,
        ),
        letter_space: config.letter_space,
    }
}

impl TextBuilder {
    /// A builder at the origin with the default stroke.
    pub fn new() -> (builder: TextBuilder)
        ensures
            builder == (TextBuilder {
                origin: Point { x: 0, y: 0 },
                path_config: PathConfig {
                    stroke_width: 1,
                    stroke_linecap: StrokeLineCap::Round,
                    stroke_linejoin: StrokeLineJoin::Round,
                },
            }),
    {
        TextBuilder::default()
    }

    /// Moves the origin.
    pub fn set_origin(&mut self, o: Point) -> (builder: &mut TextBuilder)
        ensures
            *builder == (TextBuilder { origin: o, ..*old(self) }),
            *final(self) == *final(builder),
    {
        self.origin = o;
        self
    }

    /// Lays out a run of glyphs of the requested style at the builder's
    /// origin. The run is set in the style's own face, else in the regular
    /// face; where the family has neither, the call fails and the cache is left
    /// as it was.
    pub fn build(
        &self,
        font_config: &FontConfig,
        font_style: &FontStyle,
        glyphs: &Vec<ShapedGlyph>,
        cache: &mut GlyphSymbolCache,
    ) -> (r: Result<LineLayout, LayoutError>)
        requires
            glyphs.len() <= MAX_RUN_GLYPHS,
        ensures
            r is Err <==> resolve_style(font_config@.faces, *font_style) is None,
            r is Err ==> final(cache).symbols() == old(cache).symbols(),
            r matches Ok(line) ==> {
                let resolved = resolve_style(font_config@.faces, *font_style)->0;
                let face = font_config@.faces[face_index(font_config@.faces, resolved)].face;
                let geo = builder_geometry(self.origin, font_config@, resolved);
                &&& final(cache).symbols() == run_symbols(
                    old(cache).symbols(),
                    resolved.slot(),
                    glyphs@,
                    face.outlines,
                    geo.ctx,
                )
                &&& is_layout_of(line, geo, final(cache).symbols(), resolved.slot(), glyphs@)
                &&& refers_to(line, final(cache).symbols(), resolved.slot(), glyphs@)
                &&& refers_to_new(
                    line.placements@,
                    old(cache).symbols().len(),
                    final(cache).symbols().len(),
                )
            },
            extends(final(cache).symbols(), old(cache).symbols()),
            distinct(final(cache).symbols()),
    {
        match font_config.resolve_face(*font_style) {
            None => {
                cache.distinct_symbols();
                proof {
                    assert(cache.symbols().take(cache.symbols().len() as int) =~= cache.symbols());
                }
                Err(LayoutError::FaceUnavailable)
            },
            Some((resolved, face)) => {
                let ctx = ScaleContext::derive(face.metrics, font_config.get_size());
                let line = layout_line(
                    self.origin,
                    &ctx,
                    font_config.get_letter_space(),
                    resolved.slot_index(),
                    glyphs,
                    &face.outlines,
                    cache,
                );
                Ok(line)
            },
        }
    }
}


/// Every glyph of a run is defined once the run was asked for, and a table
/// without duplicates stays so.
pub proof fn lemma_run_defines_glyphs(
    symbols: Seq<Symbol>,
    face: u8,
    glyphs: Seq<ShapedGlyph>,
    outlines: GlyphOutlines,
    ctx: ScaleContext,
)
    requires
        distinct(symbols),
    ensures
        distinct(run_symbols(symbols, face, glyphs, outlines, ctx)),
        forall|i: int|
            0 <= i < glyphs.len() ==> position_of(
                run_symbols(symbols, face, glyphs, outlines, ctx),
                identity_of(face, #[trigger] glyphs[i]),
            ) >= 0,
    decreases glyphs.len(),
{
    if glyphs.len() > 0 {
        let rest = glyphs.drop_last();
        let mid = run_symbols(symbols, face, rest, outlines, ctx);
        let last = identity_of(face, glyphs.last());
        let after = run_symbols(symbols, face, glyphs, outlines, ctx);
        lemma_run_defines_glyphs(symbols, face, rest, outlines, ctx);
        crate::cache::lemma_symbols_after_distinct(
            mid,
            last,
            outlines.outline_of(glyphs.last().glyph),
            ctx,
        );
        lemma_position_of(mid, last);
        lemma_position_of(after, last);
        assert forall|i: int| 0 <= i < glyphs.len() implies position_of(
            after,
            identity_of(face, #[trigger] glyphs[i]),
        ) >= 0 by {
            if i < rest.len() {
                assert(rest[i] == glyphs[i]);
                lemma_symbols_after_keeps(
                    mid,
                    last,
                    outlines.outline_of(glyphs.last().glyph),
                    ctx,
                    identity_of(face, glyphs[i]),
                );
            } else {
                if position_of(mid, last) < 0 {
                    assert(after.last().identity == last);
                }
            }
        }
    }
}

/// A glyph that occurs more than once in a run is defined exactly once, and
/// all its placements refer to that one definition.
pub proof fn lemma_one_definition_per_glyph(
    symbols: Seq<Symbol>,
    face: u8,
    glyphs: Seq<ShapedGlyph>,
    outlines: GlyphOutlines,
    ctx: ScaleContext,
    i: int,
    j: int,
)
    requires
        distinct(symbols),
        0 <= i < glyphs.len(),
        0 <= j < glyphs.len(),
        glyphs[i].glyph == glyphs[j].glyph,
    ensures
        ({
            let after = run_symbols(symbols, face, glyphs, outlines, ctx);
            let at = position_of(after, identity_of(face, glyphs[i]));
            &&& at == position_of(after, identity_of(face, glyphs[j]))
            &&& 0 <= at < after.len()
            &&& after[at].identity == identity_of(face, glyphs[i])
            &&& forall|k: int|
                0 <= k < after.len() && (#[trigger] after[k]).identity == identity_of(
                    face,
                    glyphs[i],
                ) ==> k == at
        }),
{
    let after = run_symbols(symbols, face, glyphs, outlines, ctx);
    lemma_run_defines_glyphs(symbols, face, glyphs, outlines, ctx);
    lemma_position_of(after, identity_of(face, glyphs[i]));
}

/// A run of one repeated glyph, laid out with a new cache, leaves exactly
/// one definition.
pub proof fn lemma_repeated_glyph_single_definition(
    face: u8,
    glyphs: Seq<ShapedGlyph>,
    outlines: GlyphOutlines,
    ctx: ScaleContext,
)
    requires
        glyphs.len() > 0,
        forall|i: int| 0 <= i < glyphs.len() ==> (#[trigger] glyphs[i]).glyph == glyphs[0].glyph,
    ensures
        run_symbols(Seq::<Symbol>::empty(), face, glyphs, outlines, ctx).len() == 1,
    decreases glyphs.len(),
{
    let empty = Seq::<Symbol>::empty();
    let rest = glyphs.drop_last();
    let mid = run_symbols(empty, face, rest, outlines, ctx);
    let last = identity_of(face, glyphs.last());
    if rest.len() == 0 {
        assert(mid =~= empty);
    } else {
        assert forall|i: int| 0 <= i < rest.len() implies (#[trigger] rest[i]).glyph
            == rest[0].glyph by {
            assert(rest[i] == glyphs[i]);
            assert(rest[0] == glyphs[0]);
        }
        lemma_repeated_glyph_single_definition(face, rest, outlines, ctx);
        lemma_run_defines_glyphs(empty, face, rest, outlines, ctx);
        assert(rest[0] == glyphs[0]);
        assert(identity_of(face, rest[0]) == last);
    }
}

/// The right bound of a run never moves left while the run grows, and it
/// lies at or right of the cursor that precedes any glyph whose advance and
/// horizontal offset are not negative: so also of a glyph without advance and
/// without outline.
pub proof fn lemma_max_x_covers_cursor(
    geo: RunGeometry,
    glyphs: Seq<ShapedGlyph>,
    vis: Seq<bool>,
    i: int,
)
    requires
        vis.len() == glyphs.len(),
        0 <= i < glyphs.len(),
        glyphs[i].x_advance >= 0,
        glyphs[i].x_offset >= 0,
    ensures
        max_x(geo, glyphs, vis) >= max_x(geo, glyphs.take(i), vis.take(i)),
        max_x(geo, glyphs, vis) >= pen_after(geo, glyphs.take(i), vis.take(i)),
        max_x(geo, glyphs, vis) >= geo.start(),
    decreases glyphs.len(),
{
    let n = glyphs.len() as int;
    let rest = glyphs.drop_last();
    let rest_vis = vis.drop_last();
    lemma_max_x_from_start(geo, rest, rest_vis);
    if i == n - 1 {
        assert(glyphs.take(i) =~= rest);
        assert(vis.take(i) =~= rest_vis);
        assert(geo.ctx.scaled(glyphs[i].x_advance as int) >= 0 && geo.ctx.scaled(
            glyphs[i].x_offset as int,
        ) >= 0) by {
            lemma_scaled_sign(geo.ctx, glyphs[i].x_advance as int);
            lemma_scaled_sign(geo.ctx, glyphs[i].x_offset as int);
        }
    } else {
        assert(rest[i] == glyphs[i]);
        lemma_max_x_covers_cursor(geo, rest, rest_vis, i);
        assert(rest.take(i) =~= glyphs.take(i));
        assert(rest_vis.take(i) =~= vis.take(i));
    }
}

/// The right bound of a run lies at or right of its start.
pub proof fn lemma_max_x_from_start(geo: RunGeometry, glyphs: Seq<ShapedGlyph>, vis: Seq<bool>)
    ensures
        max_x(geo, glyphs, vis) >= geo.start(),
    decreases glyphs.len(),
{
    if glyphs.len() > 0 {
        lemma_max_x_from_start(geo, glyphs.drop_last(), vis.drop_last());
    }
}

/// A length that is not negative stays so when it is scaled.
pub proof fn lemma_scaled_sign(ctx: ScaleContext, units: int)
    requires
        units >= 0,
    ensures
        ctx.scaled(units) >= 0,
{
    ctx.lemma_size_bounds();
    assert(units * crate::scale::SPACING_PER_EM as int * ctx.size() >= 0) by (nonlinear_arith)
        requires
            units >= 0,
            ctx.size() >= 0,
            crate::scale::SPACING_PER_EM as int == 1000,
    ;
}

} // verus!
