//! Documents: lines of laid out runs that refer to one symbol table, and
//! the assembler that folds lines into a document and keeps its canvas.

use vstd::prelude::*;
use crate::cache::{GlyphSymbolCache, Symbol, SymbolDefinition, distinct};
use crate::font::{FontConfig, FontConfigView, FontStyle, face_index};
use crate::layout::{
    LineLayout, PathConfig, Point, StrokeLineCap, StrokeLineJoin, TextBuilder, builder_geometry,
    extends, placed, run_symbols,
};
use crate::render::is_rendering_of;
use crate::layout::ShapedGlyph;
use crate::shape::{ShapedRun, run_view, shape_spec, text_shape};

verus! {

/// One span of a line: what the shaping engine gave for the span's text,
/// the style that the text is set in, and the span's colour where it has one
/// of its own.
#[derive(Debug)]
pub struct LineSpan {
    /// The glyphs of the span's text, shaped in the face that serves the
    /// style; `None` where the shaping engine gave no run.
    pub glyphs: Option<Vec<ShapedGlyph>>,
    pub style: FontStyle,
    pub color: Option<String>,
}

/// A span as a value.
pub struct SpanView {
    pub glyphs: Option<Seq<ShapedGlyph>>,
    pub style: FontStyle,
    pub color: Option<Seq<char>>,
}

impl View for LineSpan {
    type V = SpanView;

    open spec fn view(&self) -> SpanView {
        SpanView {
            glyphs: run_view(self.glyphs),
            style: self.style,
            color: match self.color {
                Some(c) => Some(c@),
                None => None,
            },
        }
    }
}

/// The spans of a line, as values.
pub open spec fn span_views(spans: Seq<LineSpan>) -> Seq<SpanView> {
    Seq::new(spans.len(), |i: int| spans[i]@)
}

/// The lines of a text, each as the values of its spans.
pub open spec fn line_views(lines: Seq<Vec<LineSpan>>) -> Seq<Seq<SpanView>> {
    Seq::new(lines.len(), |i: int| span_views(lines[i]@))
}

/// Whether every span of a line has a run: a face serves its style, the
/// shaping engine gave glyphs, and they are no more than a layout takes.
pub open spec fn line_kept(config: FontConfigView, spans: Seq<SpanView>) -> bool {
    forall|i: int|
        0 <= i < spans.len() ==> shape_spec(config, (#[trigger] spans[i]).glyphs, spans[i].style)
            is Some
}

/// The symbol table after the first `i` spans of a line were laid out.
pub open spec fn table_after_spans(
    before: Seq<Symbol>,
    config: FontConfigView,
    spans: Seq<SpanView>,
    i: int,
) -> Seq<Symbol>
    decreases i,
{
    if i <= 0 {
        before
    } else {
        let earlier = table_after_spans(before, config, spans, i - 1);
        match shape_spec(config, spans[i - 1].glyphs, spans[i - 1].style) {
            Some((resolved, glyphs)) => run_symbols(
                earlier,
                resolved.slot(),
                glyphs,
                config.faces[face_index(config.faces, resolved)].face.outlines,
                builder_geometry((Point { x: 0, y: 0 }), config, resolved).ctx,
            ),
            None => earlier,
        }
    }
}

/// Where span `i` of a line starts: at zero for the first span, else at the
/// right bound of the span before it.
pub open spec fn span_start(runs: Seq<TextRun>, i: int) -> int {
    if i <= 0 {
        0
    } else {
        runs[i - 1].layout.bbox.x_max as int
    }
}

/// Whether run `i` is the rendering of span `i` of a line that began with
/// the symbol table `before`.
pub open spec fn is_span_of(
    runs: Seq<TextRun>,
    i: int,
    config: FontConfigView,
    spans: Seq<SpanView>,
    before: Seq<Symbol>,
) -> bool {
    &&& match (runs[i].color, spans[i].color) {
        (Some(a), Some(b)) => a@ == b,
        (None, None) => true,
        _ => false,
    }
    &&& runs[i].path_config == (PathConfig {
        stroke_width: 1,
        stroke_linecap: StrokeLineCap::Round,
        stroke_linejoin: StrokeLineJoin::Round,
    })
    &&& is_rendering_of(
        runs[i].layout,
        (Point { x: span_start(runs, i) as i64, y: 0 }),
        config,
        spans[i].glyphs,
        spans[i].style,
        table_after_spans(before, config, spans, i),
        table_after_spans(before, config, spans, i + 1),
    )
}

/// Whether `line` is line `k` of a document, made of the given spans, in a
/// document that held the symbol table `before` when the line began.
pub open spec fn is_line_of(
    line: DocumentLine,
    k: int,
    line_height: u32,
    config: FontConfigView,
    spans: Seq<SpanView>,
    before: Seq<Symbol>,
) -> bool {
    &&& line.offset_y == k * line_height
    &&& line.runs@.len() == spans.len()
    &&& forall|i: int| 0 <= i < spans.len() ==> is_span_of(line.runs@, i, config, spans, before)
}

/// One laid out run with what it is drawn with.
#[derive(Debug)]
pub struct TextRun {
    pub layout: LineLayout,
    pub path_config: PathConfig,
    /// The colour that fills and strokes the run, where the run has its own.
    pub color: Option<String>,
}

/// One line of a document: the runs of the line, moved down by the line's
/// offset.
#[derive(Debug)]
pub struct DocumentLine {
    /// How far the line is moved down, in pixels.
    pub offset_y: u128,
    pub runs: Vec<TextRun>,
}

/// Why a document could not be made.
#[derive(Debug, Clone, Copy, PartialEq, Eq, Structural)]
pub enum RenderError {
    /// There were lines to render, and every one of them failed.
    NothingRendered,
    /// Lines were to be wrapped at a width of zero.
    InvalidWidth,
}

/// A finished document: the symbol table, the lines that refer to it and the
/// canvas.
#[derive(Debug)]
pub struct Document {
    /// One definition per glyph that was met, in the order of first
    /// appearance.
    pub symbols: Vec<SymbolDefinition>,
    pub lines: Vec<DocumentLine>,
    /// The left edge of the view box.
    pub view_x: i64,
    /// The top edge of the view box.
    pub view_y: i64,
    /// The canvas width in pixels.
    pub width: u128,
    /// The canvas height in pixels.
    pub height: u128,
}

/// Whether every placement of a run refers to one of the first `count`
/// symbols.
pub open spec fn run_in_table(run: TextRun, count: nat) -> bool {
    forall|i: int|
        0 <= i < run.layout.placements@.len() ==> (#[trigger] run.layout.placements@[i]).symbol
            < count
}

/// Whether every placement of a line refers to one of the first `count`
/// symbols.
pub open spec fn line_in_table(line: DocumentLine, count: nat) -> bool {
    forall|r: int| 0 <= r < line.runs@.len() ==> run_in_table(#[trigger] line.runs@[r], count)
}

/// Whether the lines stand one line height apart from the top, and refer to
/// the first `count` symbols only.
pub open spec fn lines_in_table(lines: Seq<DocumentLine>, count: nat, line_height: u32) -> bool {
    forall|k: int|
        0 <= k < lines.len() ==> (#[trigger] lines[k]).offset_y == k * line_height
            && line_in_table(lines[k], count)
}

/// Whether a placement of one of the runs refers to `symbol`.
pub open spec fn runs_refer(runs: Seq<TextRun>, symbol: int) -> bool {
    exists|r: int| 0 <= r < runs.len() && placed((#[trigger] runs[r]).layout.placements@, symbol)
}

/// Whether a placement of one of the lines refers to `symbol`.
pub open spec fn lines_refer(lines: Seq<DocumentLine>, symbol: int) -> bool {
    exists|l: int| 0 <= l < lines.len() && runs_refer((#[trigger] lines[l]).runs@, symbol)
}

/// Whether each of the first `count` symbols is referred to by a placement:
/// no symbol is defined that the lines do not use.
pub open spec fn all_referenced(lines: Seq<DocumentLine>, count: nat) -> bool {
    forall|s: int| 0 <= s < count ==> #[trigger] lines_refer(lines, s)
}

/// The right edge of a line: the greatest right bound of its runs, and at
/// least zero.
pub open spec fn line_right(runs: Seq<TextRun>) -> int
    decreases runs.len(),
{
    if runs.len() == 0 {
        0
    } else {
        let rest = line_right(runs.drop_last());
        let here = runs.last().layout.bbox.x_max as int;
        if here > rest {
            here
        } else {
            rest
        }
    }
}

/// The canvas width: the greatest right edge of all lines.
pub open spec fn canvas_width(lines: Seq<DocumentLine>) -> int
    decreases lines.len(),
{
    if lines.len() == 0 {
        0
    } else {
        let rest = canvas_width(lines.drop_last());
        let here = line_right(lines.last().runs@);
        if here > rest {
            here
        } else {
            rest
        }
    }
}

/// The height of `count` lines of `line_height` pixels each.
pub fn lines_height(count: usize, line_height: u32) -> (h: u128)
    ensures
        h == count * line_height,
{
    assert(0 <= count * line_height <= 0xFFFF_FFFF_FFFF_FFFF * 0xFFFF_FFFF) by (nonlinear_arith)
        requires
            0 <= count <= 0xFFFF_FFFF_FFFF_FFFF,
            0 <= line_height <= 0xFFFF_FFFF,
    ;
    count as u128 * line_height as u128
}

/// Computes [`line_right`].
pub fn right_edge(runs: &Vec<TextRun>) -> (r: u64)
    ensures
        r == line_right(runs@),
{
    let mut right: u64 = 0;
    let mut i: usize = 0;
    proof {
        assert(runs@.take(0) =~= Seq::<TextRun>::empty());
    }
    while i < runs.len()
        invariant
            i <= runs.len(),
            right == line_right(runs@.take(i as int)),
        decreases runs.len() - i,
    {
        proof {
            assert(runs@.take(i + 1).drop_last() =~= runs@.take(i as int));
        }
        let here = runs[i].layout.bbox.x_max;
        if here > 0 && here as u64 > right {
            right = here as u64;
        }
        i += 1;
    }
    proof {
        assert(runs@.take(runs@.len() as int) =~= runs@);
    }
    right
}

/// Folds the lines of one document: owns the document's symbol cache, gives
/// each line its place and keeps the canvas size.
pub struct DocumentAssembler {
    cache: GlyphSymbolCache,
    lines: Vec<DocumentLine>,
    width: u64,
    line_height: u32,
    failed: bool,
}

impl DocumentAssembler {
    #[verifier::type_invariant]
    spec fn inv(self) -> bool {
        &&& lines_in_table(self.lines@, self.cache.symbols().len(), self.line_height)
        &&& all_referenced(self.lines@, self.cache.symbols().len())
        &&& self.width == canvas_width(self.lines@)
    }

    /// The symbol table so far.
    pub closed spec fn symbols(&self) -> Seq<Symbol> {
        self.cache.symbols()
    }

    /// The lines so far.
    pub closed spec fn lines(&self) -> Seq<DocumentLine> {
        self.lines@
    }

    /// The height of a line in pixels.
    pub closed spec fn line_height(&self) -> u32 {
        self.line_height
    }

    /// Whether a line failed to render.
    pub closed spec fn failed(&self) -> bool {
        self.failed
    }

    /// An assembler for a new document, whose lines are `line_height` pixels
    /// high.
    pub fn new(line_height: u32) -> (a: DocumentAssembler)
        ensures
            a.symbols().len() == 0,
            a.lines().len() == 0,
            a.line_height() == line_height,
            !a.failed(),
    {
        DocumentAssembler {
            cache: GlyphSymbolCache::new(),
            lines: Vec::new(),
            width: 0,
            line_height,
            failed: false,
        }
    }

    /// Adds one line, made of spans that follow each other from the left.
    /// Each span starts where the box of the span before it ends. A line
    /// without spans takes its place empty. A line of which a span has no run
    /// is skipped whole: it takes no place and defines no symbol, and the
    /// document remembers the failure. Returns whether the line was added.
    pub fn add_line(&mut self, spans: &Vec<LineSpan>, font_config: &FontConfig) -> (added: bool)
        ensures
            final(self).line_height() == old(self).line_height(),
            added == line_kept(font_config@, span_views(spans@)),
            !added ==> final(self).lines() == old(self).lines() && final(self).symbols() == old(self).symbols() && final(self).failed(),
            added ==> {
                &&& final(self).failed() == old(self).failed()
                &&& final(self).lines().len() == old(self).lines().len() + 1
                &&& final(self).lines().drop_last() == old(self).lines()
                &&& is_line_of(
                    final(self).lines().last(),
                    old(self).lines().len() as int,
                    old(self).line_height(),
                    font_config@,
                    span_views(spans@),
                    old(self).symbols(),
                )
                &&& final(self).symbols() == table_after_spans(
                    old(self).symbols(),
                    font_config@,
                    span_views(spans@),
                    spans@.len() as int,
                )
            },
            extends(final(self).symbols(), old(self).symbols()),
            distinct(final(self).symbols()),
    {
        proof {
            use_type_invariant(&*self);
        }
        let n = spans.len();
        let ghost views = span_views(spans@);
        let mut shaped: Vec<ShapedRun> = Vec::new();
        let mut i: usize = 0;
        while i < n
            invariant
                *self == *old(self),
                i <= n == spans.len(),
                shaped@.len() == i,
                views == span_views(spans@),
                forall|j: int|
                    0 <= j < i ==> shape_spec(
                        font_config@,
                        (#[trigger] views[j]).glyphs,
                        views[j].style,
                    ) == Some((shaped@[j].style, shaped@[j].glyphs@)),
            decreases n - i,
        {
            proof {
                assert(views[i as int] == spans@[i as int]@);
            }
            match text_shape(&spans[i].glyphs, font_config, &spans[i].style) {
                Some(run) => {
                    shaped.push(run);
                },
                None => {
                    self.mark_failed();
                    return false;
                },
            }
            i += 1;
        }
        let mut taken = DocumentAssembler::new(self.line_height);
        core::mem::swap(self, &mut taken);
        let DocumentAssembler { mut cache, mut lines, mut width, line_height, failed } = taken;
        let ghost before = lines@;
        let ghost table = cache.symbols();
        let ghost count = cache.symbols().len();
        let mut runs: Vec<TextRun> = Vec::new();
        let mut x: i64 = 0;
        let mut k: usize = 0;
        cache.distinct_symbols();
        proof {
            assert(cache.symbols().take(cache.symbols().len() as int) =~= cache.symbols());
        }
        while k < n
            invariant
                k <= n == spans.len(),
                lines@ == before,
                lines_in_table(before, count, line_height),
                all_referenced(before, count),
                width == canvas_width(before),
                forall|s: int| count <= s < cache.symbols().len() ==> #[trigger] runs_refer(runs@, s),
                count == table.len(),
                shaped@.len() == n,
                views == span_views(spans@),
                forall|j: int|
                    0 <= j < n ==> shape_spec(
                        font_config@,
                        (#[trigger] views[j]).glyphs,
                        views[j].style,
                    ) == Some((shaped@[j].style, shaped@[j].glyphs@)),
                runs@.len() == k,
                x == span_start(runs@, k as int),
                cache.symbols() == table_after_spans(table, font_config@, views, k as int),
                extends(cache.symbols(), table),
                distinct(cache.symbols()),
                forall|j: int| 0 <= j < k ==> is_span_of(runs@, j, font_config@, views, table),
                forall|j: int| 0 <= j < k ==> run_in_table(#[trigger] runs@[j], cache.symbols().len()),
            decreases n - k,
        {
            let ghost here = cache.symbols();
            let ghost earlier = runs@;
            let mut builder = TextBuilder::new();
            builder.set_origin(Point { x, y: 0 });
            match builder.build(font_config, &spans[k].style, shaped[k].glyphs, &mut cache) {
                Ok(layout) => {
                    x = layout.bbox.x_max;
                    let color = match &spans[k].color {
                        Some(c) => Some(c.clone()),
                        None => None,
                    };
                    runs.push(TextRun { layout, path_config: builder.path_config, color });
                },
                Err(_) => {
                    // The span has a run, so the family has a face for it.
                    proof {
                        assert(shape_spec(
                            font_config@,
                            views[k as int].glyphs,
                            views[k as int].style,
                        ) is Some);
                    }
                },
            }
            proof {
                assert(runs@.drop_last() =~= earlier);
                assert(views[k as int] == spans@[k as int]@);
                assert forall|j: int| 0 <= j < k + 1 implies is_span_of(
                    runs@,
                    j,
                    font_config@,
                    views,
                    table,
                ) by {
                    if j < k {
                        assert(is_span_of(earlier, j, font_config@, views, table));
                        assert(runs@[j] == earlier[j]);
                        if j > 0 {
                            assert(runs@[j - 1] == earlier[j - 1]);
                        }
                    } else {
                        if j > 0 {
                            assert(runs@[j - 1] == earlier[j - 1]);
                        }
                    }
                }
                assert forall|j: int| 0 <= j < k + 1 implies run_in_table(
                    #[trigger] runs@[j],
                    cache.symbols().len(),
                ) by {
                    if j < k {
                        assert(runs@[j] == earlier[j]);
                        assert(run_in_table(earlier[j], here.len()));
                    }
                }
                assert(cache.symbols().take(table.len() as int) =~= here.take(table.len() as int));
                assert forall|s: int| count <= s < cache.symbols().len() implies #[trigger] runs_refer(
                    runs@,
                    s,
                ) by {
                    if s < here.len() {
                        assert(runs_refer(earlier, s));
                        let r = choose|r: int|
                            0 <= r < earlier.len() && placed(
                                (#[trigger] earlier[r]).layout.placements@,
                                s,
                            );
                        assert(runs@[r] == earlier[r]);
                    } else {
                        assert(placed(runs@[k as int].layout.placements@, s));
                    }
                }
            }
            k += 1;
        }
        let right = right_edge(&runs);
        if right > width {
            width = right;
        }
        let offset_y: u128 = lines_height(lines.len(), line_height);
        lines.push(DocumentLine { offset_y, runs });
        proof {
            assert(lines@.drop_last() =~= before);
            assert forall|j: int| 0 <= j < lines@.len() implies (#[trigger] lines@[j]).offset_y == j
                * line_height && line_in_table(lines@[j], cache.symbols().len()) by {
                if j < before.len() {
                    assert(lines@[j] == before[j]);
                    assert(line_in_table(before[j], count));
                }
            }
            assert forall|s: int| 0 <= s < cache.symbols().len() implies #[trigger] lines_refer(
                lines@,
                s,
            ) by {
                if s < count {
                    assert(lines_refer(before, s));
                    let l = choose|l: int|
                        0 <= l < before.len() && runs_refer((#[trigger] before[l]).runs@, s);
                    assert(lines@[l] == before[l]);
                } else {
                    assert(runs_refer(lines@[before.len() as int].runs@, s));
                }
            }
        }
        *self = DocumentAssembler { cache, lines, width, line_height, failed };
        true
    }

    /// Remembers that a line failed to render.
    fn mark_failed(&mut self)
        ensures
            final(self).lines() == old(self).lines(),
            final(self).symbols() == old(self).symbols(),
            final(self).line_height() == old(self).line_height(),
            final(self).failed(),
            extends(final(self).symbols(), old(self).symbols()),
            distinct(final(self).symbols()),
    {
        proof {
            use_type_invariant(&*self);
            assert(self.cache.symbols().take(self.cache.symbols().len() as int)
                =~= self.cache.symbols());
        }
        self.cache.distinct_symbols();
        self.failed = true;
    }

    /// Ends the document. The canvas is as wide as the widest line and as
    /// high as all lines together. A document of which every line failed is
    /// no document.
    pub fn finish(self) -> (r: Result<Document, RenderError>)
        ensures
            r is Err <==> self.failed() && self.lines().len() == 0,
            r matches Err(e) ==> e == RenderError::NothingRendered,
            r matches Ok(doc) ==> {
                &&& doc.lines@ == self.lines()
                &&& doc.symbols@.len() == self.symbols().len()
                &&& forall|i: int|
                    0 <= i < doc.symbols@.len() ==> (#[trigger] doc.symbols@[i])@
                        == self.symbols()[i]
                &&& distinct(self.symbols())
                &&& lines_in_table(doc.lines@, doc.symbols@.len(), self.line_height())
                &&& all_referenced(doc.lines@, doc.symbols@.len())
                &&& doc.view_x == 0
                &&& doc.view_y == 0
                &&& doc.width == canvas_width(doc.lines@)
                &&& doc.height == doc.lines@.len() * self.line_height()
            },
    {
        proof {
            use_type_invariant(&self);
        }
        let DocumentAssembler { cache, lines, width, line_height, failed } = self;
        if failed && lines.len() == 0 {
            return Err(RenderError::NothingRendered);
        }
        let height: u128 = lines_height(lines.len(), line_height);
        let symbols = cache.into_definitions();
        Ok(Document { symbols, lines, view_x: 0, view_y: 0, width: width as u128, height })
    }
}


/// The lines of a text that are added to its document: those of which every
/// span has a run, in their order.
pub open spec fn kept_lines(config: FontConfigView, lines: Seq<Seq<SpanView>>) -> Seq<
    Seq<SpanView>,
>
    decreases lines.len(),
{
    if lines.len() == 0 {
        lines
    } else if line_kept(config, lines.last()) {
        kept_lines(config, lines.drop_last()).push(lines.last())
    } else {
        kept_lines(config, lines.drop_last())
    }
}

/// The symbol table of a document after the given lines were added to it.
pub open spec fn table_after_lines(config: FontConfigView, lines: Seq<Seq<SpanView>>) -> Seq<
    Symbol,
>
    decreases lines.len(),
{
    if lines.len() == 0 {
        Seq::<Symbol>::empty()
    } else {
        table_after_spans(
            table_after_lines(config, lines.drop_last()),
            config,
            lines.last(),
            lines.last().len() as int,
        )
    }
}

/// The definitions of a symbol table, as values.
pub open spec fn symbol_views(symbols: Seq<SymbolDefinition>) -> Seq<Symbol> {
    Seq::new(symbols.len(), |i: int| symbols[i]@)
}

/// Whether the lines and the symbol table of `doc` are those of the given
/// lines: one document line per line whose spans all have runs, one line height
/// apart, each made of its spans, and one definition per glyph that the lines
/// refer to, in the order of first appearance.
pub open spec fn holds_lines(doc: Document, config: FontConfigView, lines: Seq<Seq<SpanView>>) -> bool {
    let kept = kept_lines(config, lines);
    &&& doc.lines@.len() == kept.len()
    &&& forall|k: int|
        0 <= k < kept.len() ==> is_line_of(
            #[trigger] doc.lines@[k],
            k,
            config.size,
            config,
            kept[k],
            table_after_lines(config, kept.take(k)),
        )
    &&& symbol_views(doc.symbols@) == table_after_lines(config, kept)
    &&& distinct(symbol_views(doc.symbols@))
    &&& lines_in_table(doc.lines@, doc.symbols@.len(), config.size)
    &&& all_referenced(doc.lines@, doc.symbols@.len())
}

/// Whether `doc` is the document of the given lines: it holds them, and its
/// canvas starts at the origin, is as wide as the widest line and as high as
/// all lines together.
pub open spec fn is_document_of(doc: Document, config: FontConfigView, lines: Seq<Seq<SpanView>>) -> bool {
    &&& holds_lines(doc, config, lines)
    &&& doc.view_x == 0
    &&& doc.view_y == 0
    &&& doc.width == canvas_width(doc.lines@)
    &&& doc.height == doc.lines@.len() * config.size
}

/// Renders lines of spans into one document. Lines that cannot be rendered
/// are left out; the document fails only where there are lines and none of
/// them can be rendered.
pub fn render_lines(lines: &Vec<Vec<LineSpan>>, font_config: &FontConfig) -> (r: Result<
    Document,
    RenderError,
>)
    ensures
        r is Err <==> lines@.len() > 0 && kept_lines(font_config@, line_views(lines@)).len() == 0,
        r matches Err(e) ==> e == RenderError::NothingRendered,
        r matches Ok(doc) ==> is_document_of(doc, font_config@, line_views(lines@)),
{
    let ghost all = line_views(lines@);
    let ghost config = font_config@;
    let mut assembler = DocumentAssembler::new(font_config.get_size());
    let n = lines.len();
    let mut i: usize = 0;
    proof {
        assert(all.take(0) =~= Seq::<Seq<SpanView>>::empty());
    }
    while i < n
        invariant
            i <= n == lines.len(),
            all == line_views(lines@),
            config == font_config@,
            assembler.line_height() == config.size,
            assembler.failed() == (kept_lines(config, all.take(i as int)).len() < i),
            assembler.lines().len() == kept_lines(config, all.take(i as int)).len(),
            assembler.lines().len() <= i,
            assembler.symbols() == table_after_lines(config, kept_lines(config, all.take(i as int))),
            forall|k: int|
                0 <= k < assembler.lines().len() ==> is_line_of(
                    #[trigger] assembler.lines()[k],
                    k,
                    config.size,
                    config,
                    kept_lines(config, all.take(i as int))[k],
                    table_after_lines(config, kept_lines(config, all.take(i as int)).take(k)),
                ),
        decreases n - i,
    {
        let ghost before = assembler.lines();
        let ghost kept = kept_lines(config, all.take(i as int));
        let added = assembler.add_line(&lines[i], font_config);
        proof {
            let now = kept_lines(config, all.take(i + 1));
            assert(all.take(i + 1).drop_last() =~= all.take(i as int));
            assert(all.take(i + 1).last() == span_views(lines@[i as int]@));
            if added {
                assert(now == kept.push(all[i as int]));
                assert(now.drop_last() =~= kept);
                assert(now.take(kept.len() as int) =~= kept);
                assert forall|k: int| 0 <= k < assembler.lines().len() implies is_line_of(
                    #[trigger] assembler.lines()[k],
                    k,
                    config.size,
                    config,
                    now[k],
                    table_after_lines(config, now.take(k)),
                ) by {
                    if k < kept.len() {
                        assert(assembler.lines()[k] == before[k]);
                        assert(now.take(k) =~= kept.take(k));
                    } else {
                        assert(assembler.lines()[k] == assembler.lines().last());
                    }
                }
            }
        }
        i += 1;
    }
    proof {
        assert(all.take(n as int) =~= all);
    }
    match assembler.finish() {
        Ok(doc) => {
            proof {
                assert(symbol_views(doc.symbols@) =~= assembler.symbols());
            }
            Ok(doc)
        },
        Err(e) => Err(e),
    }
}

} // verus!
