//! Rendering of texts: the run of a line or a span is laid out, and whole
//! texts, plain or highlighted, become documents. The shaping engine works
//! outside this library; what it gave for each text is handed in.

use vstd::prelude::*;
use crate::cache::{GlyphSymbolCache, Symbol, distinct};
use crate::document::{
    Document, LineSpan, RenderError, SpanView, holds_lines, is_document_of, kept_lines,
    line_kept, line_views, render_lines, span_views,
};
use crate::font::{FontConfig, FontConfigView, FontStyle, face_index};
use crate::highlight::{HighlightColor, HighlightFontStyle, rgba_text, style_of_bits};
use crate::layout::{
    LineLayout, Point, ShapedGlyph, TextBuilder, builder_geometry, extends, is_layout_of,
    refers_to, refers_to_new, run_symbols,
};
use crate::shape::{copy_run, run_view, shape_spec, text_shape};

verus! {

/// How a plain text is rendered.
#[derive(Debug, Clone, Copy)]
pub struct RenderConfig {
    animate: bool,
    font_style: FontStyle,
    max_width: Option<usize>,
}

impl RenderConfig {
    /// Whether the drawing is animated.
    pub closed spec fn animate(&self) -> bool {
        self.animate
    }

    /// The style in which the text is set.
    pub closed spec fn font_style(&self) -> FontStyle {
        self.font_style
    }

    /// The width at which lines are wrapped, if they are.
    pub closed spec fn max_width(&self) -> Option<usize> {
        self.max_width
    }

    /// A configuration without line wrapping.
    pub fn new(animate: bool, style: FontStyle) -> (config: RenderConfig)
        ensures
            config.animate() == animate,
            config.font_style() == style,
            config.max_width() is None,
    {
        RenderConfig { animate, font_style: style, max_width: None }
    }

    /// Sets or clears the width at which lines are wrapped.
    pub fn set_max_width(&mut self, width: Option<usize>) -> (config: &mut RenderConfig)
        ensures
            config.max_width() == width,
            config.animate() == old(self).animate(),
            config.font_style() == old(self).font_style(),
            *final(self) == *final(config),
    {
        self.max_width = width;
        self
    }

    /// The style in which the text is set.
    pub fn get_font_style(&self) -> (style: &FontStyle)
        ensures
            *style == self.font_style(),
    {
        &self.font_style
    }

    /// Whether the drawing is animated.
    pub fn get_animate(&self) -> (animate: bool)
        ensures
            animate == self.animate(),
    {
        self.animate
    }

    /// The width at which lines are wrapped, if they are.
    pub fn get_max_width(&self) -> (width: Option<usize>)
        ensures
            width == self.max_width(),
    {
        self.max_width
    }
}

/// Whether `line` is what a text of the requested style gives at `origin`,
/// with `shaped` what the shaping engine gave for the text and `before` and
/// `after` the symbol table around the call: the run is that of the face that
/// serves the style, its glyphs are asked of the cache in order, and the run
/// is laid out.
pub open spec fn is_rendering_of(
    line: LineLayout,
    origin: Point,
    config: FontConfigView,
    shaped: Option<Seq<ShapedGlyph>>,
    style: FontStyle,
    before: Seq<Symbol>,
    after: Seq<Symbol>,
) -> bool {
    &&& shape_spec(config, shaped, style) matches Some((resolved, glyphs))
    &&& after == run_symbols(
        before,
        resolved.slot(),
        glyphs,
        config.faces[face_index(config.faces, resolved)].face.outlines,
        builder_geometry(origin, config, resolved).ctx,
    )
    &&& is_layout_of(line, builder_geometry(origin, config, resolved), after, resolved.slot(), glyphs)
    &&& refers_to(line, after, resolved.slot(), glyphs)
    &&& refers_to_new(line.placements@, before.len(), after.len())
}

/// Lays out a text of the given style at `(x, y)`, from what the shaping
/// engine gave for it.
pub fn render_styled_line(
    x: i64,
    y: i64,
    shaped: &Option<Vec<ShapedGlyph>>,
    font_config: &FontConfig,
    style: &FontStyle,
    cache: &mut GlyphSymbolCache,
) -> (r: Option<LineLayout>)
    ensures
        r is None <==> shape_spec(font_config@, run_view(*shaped), *style) is None,
        r is None ==> final(cache).symbols() == old(cache).symbols(),
        r matches Some(layout) ==> is_rendering_of(
            layout,
            (Point { x, y }),
            font_config@,
            run_view(*shaped),
            *style,
            old(cache).symbols(),
            final(cache).symbols(),
        ),
        extends(final(cache).symbols(), old(cache).symbols()),
        distinct(final(cache).symbols()),
{
    match text_shape(shaped, font_config, style) {
        None => {
            cache.distinct_symbols();
            proof {
                assert(cache.symbols().take(cache.symbols().len() as int) =~= cache.symbols());
            }
            None
        },
        Some(run) => {
            let mut builder = TextBuilder::new();
            builder.set_origin(Point { x, y });
            match builder.build(font_config, style, run.glyphs, cache) {
                Ok(layout) => Some(layout),
                Err(_) => None,
            }
        },
    }
}

/// Renders one line of plain text in the style of the render configuration,
/// from what the shaping engine gave for the line.
pub fn render_text_line(
    x: i64,
    y: i64,
    shaped: &Option<Vec<ShapedGlyph>>,
    font_config: &FontConfig,
    render_config: &RenderConfig,
    cache: &mut GlyphSymbolCache,
) -> (r: Option<LineLayout>)
    ensures
        r is None <==> shape_spec(font_config@, run_view(*shaped), render_config.font_style())
            is None,
        r is None ==> final(cache).symbols() == old(cache).symbols(),
        r matches Some(layout) ==> is_rendering_of(
            layout,
            (Point { x, y }),
            font_config@,
            run_view(*shaped),
            render_config.font_style(),
            old(cache).symbols(),
            final(cache).symbols(),
        ),
        extends(final(cache).symbols(), old(cache).symbols()),
        distinct(final(cache).symbols()),
{
    render_styled_line(x, y, shaped, font_config, render_config.get_font_style(), cache)
}

/// Renders one span of a highlighted line, in the style that its flags
/// tell, from what the shaping engine gave for the span.
pub fn render_token(
    x: i64,
    y: i64,
    shaped: &Option<Vec<ShapedGlyph>>,
    font_config: &FontConfig,
    style: HighlightFontStyle,
    cache: &mut GlyphSymbolCache,
) -> (r: Option<LineLayout>)
    ensures
        r is None <==> shape_spec(font_config@, run_view(*shaped), style_of_bits(style.bits()))
            is None,
        r is None ==> final(cache).symbols() == old(cache).symbols(),
        r matches Some(layout) ==> is_rendering_of(
            layout,
            (Point { x, y }),
            font_config@,
            run_view(*shaped),
            style_of_bits(style.bits()),
            old(cache).symbols(),
            final(cache).symbols(),
        ),
        extends(final(cache).symbols(), old(cache).symbols()),
        distinct(final(cache).symbols()),
{
    let font_style = style.get_style();
    render_styled_line(x, y, shaped, font_config, &font_style, cache)
}

/// One line of a plain text and what the shaping engine gave for it. An
/// empty line is not shaped.
#[derive(Debug)]
pub struct ShapedLine {
    pub text: String,
    pub glyphs: Option<Vec<ShapedGlyph>>,
}

/// The spans of a line of plain text: none for an empty line, else one span
/// of the line's glyphs in the given style, without a colour of its own.
pub open spec fn plain_line(line: ShapedLine, style: FontStyle) -> Seq<SpanView> {
    if line.text@.len() == 0 {
        Seq::<SpanView>::empty()
    } else {
        seq![SpanView { glyphs: run_view(line.glyphs), style, color: None }]
    }
}

/// The lines of a plain text, each as its spans.
pub open spec fn plain_lines(lines: Seq<ShapedLine>, style: FontStyle) -> Seq<Seq<SpanView>> {
    Seq::new(lines.len(), |i: int| plain_line(lines[i], style))
}

/// Renders the lines of a plain text into one document. The lines are the
/// source lines of the text, wrapped where the render configuration has a
/// width, and each comes with what the shaping engine gave for it. Every line
/// is set in the style of the render configuration; an empty line takes its
/// place without glyphs. A render configuration with a width of zero is
/// refused before anything is rendered.
pub fn render_text_file_to_svg(
    lines: &Vec<ShapedLine>,
    font_config: &FontConfig,
    render_config: &RenderConfig,
) -> (r: Result<Document, RenderError>)
    ensures
        ({
            let spans = plain_lines(lines@, render_config.font_style());
            let refused = render_config.max_width() == Some(0usize);
            let failed = spans.len() > 0 && kept_lines(font_config@, spans).len() == 0;
            &&& r is Err <==> refused || failed
            &&& r matches Err(e) ==> e == (if refused {
                RenderError::InvalidWidth
            } else {
                RenderError::NothingRendered
            })
            &&& r matches Ok(doc) ==> is_document_of(doc, font_config@, spans)
        }),
{
    match render_config.get_max_width() {
        Some(width) => {
            if width == 0 {
                return Err(RenderError::InvalidWidth);
            }
        },
        None => {},
    }
    let style = *render_config.get_font_style();
    let mut all: Vec<Vec<LineSpan>> = Vec::new();
    let mut i: usize = 0;
    while i < lines.len()
        invariant
            i <= lines.len(),
            all@.len() == i,
            forall|k: int|
                0 <= k < i ==> span_views((#[trigger] all@[k])@) == plain_line(lines@[k], style),
        decreases lines.len() - i,
    {
        let mut spans: Vec<LineSpan> = Vec::new();
        if lines[i].text.as_str().unicode_len() > 0 {
            spans.push(LineSpan { glyphs: copy_run(&lines[i].glyphs), style, color: None });
        }
        proof {
            assert(span_views(spans@) =~= plain_line(lines@[i as int], style));
        }
        all.push(spans);
        i += 1;
    }
    proof {
        assert(line_views(all@) =~= plain_lines(lines@, style));
    }
    render_lines(&all, font_config)
}

/// One span of a highlighted line: what the shaping engine gave for its
/// text, and its font style and colour as the highlighter gives them.
pub struct HighlightSpan {
    pub glyphs: Option<Vec<ShapedGlyph>>,
    pub style: HighlightFontStyle,
    pub color: HighlightColor,
}

impl HighlightSpan {
    /// One region of a highlighted line: the glyphs of its text, and the
    /// font style and the colour that the highlighter's style holds.
    pub fn new(glyphs: Option<Vec<ShapedGlyph>>, style: &syntect::highlighting::Style) -> (span:
        HighlightSpan)
        ensures
            span.glyphs == glyphs,
    {
        HighlightSpan {
            glyphs,
            style: HighlightFontStyle::of_style(style),
            color: HighlightColor::of_style(style),
        }
    }
}

/// The span that a highlighted span is rendered as: set in the style that
/// its flags tell, filled and stroked in its colour.
pub open spec fn highlight_span(span: HighlightSpan) -> SpanView {
    SpanView {
        glyphs: run_view(span.glyphs),
        style: style_of_bits(span.style.bits()),
        color: Some(
            rgba_text(
                span.color.channels().0,
                span.color.channels().1,
                span.color.channels().2,
                span.color.channels().3,
            ),
        ),
    }
}

/// The lines of a highlighted text, each as its spans.
pub open spec fn highlight_lines(lines: Seq<Vec<HighlightSpan>>) -> Seq<Seq<SpanView>> {
    Seq::new(lines.len(), |i: int| Seq::new(lines[i]@.len(), |j: int| highlight_span(lines[i]@[j])))
}

/// Renders a highlighted text into one document: each line is given as the
/// spans of one source line, which follow each other from the left.
pub fn render_file_highlight(lines: &Vec<Vec<HighlightSpan>>, font_config: &FontConfig) -> (r:
    Result<Document, RenderError>)
    ensures
        r is Err <==> lines@.len() > 0 && kept_lines(font_config@, highlight_lines(lines@)).len()
            == 0,
        r matches Err(e) ==> e == RenderError::NothingRendered,
        r matches Ok(doc) ==> is_document_of(doc, font_config@, highlight_lines(lines@)),
{
    let mut plain: Vec<Vec<LineSpan>> = Vec::new();
    let mut i: usize = 0;
    while i < lines.len()
        invariant
            i <= lines.len(),
            plain@.len() == i,
            forall|k: int|
                0 <= k < i ==> span_views((#[trigger] plain@[k])@) == highlight_lines(lines@)[k],
        decreases lines.len() - i,
    {
        let line = &lines[i];
        let mut spans: Vec<LineSpan> = Vec::new();
        let mut j: usize = 0;
        while j < line.len()
            invariant
                j <= line.len(),
                spans@.len() == j,
                forall|k: int| 0 <= k < j ==> (#[trigger] spans@[k])@ == highlight_span(line@[k]),
            decreases line.len() - j,
        {
            let span = &line[j];
            spans.push(
                LineSpan {
                    glyphs: copy_run(&span.glyphs),
                    style: span.style.get_style(),
                    color: Some(span.color.to_string()),
                },
            );
            j += 1;
        }
        proof {
            assert(span_views(spans@) =~= highlight_lines(lines@)[i as int]);
        }
        plain.push(spans);
        i += 1;
    }
    proof {
        assert(line_views(plain@) =~= highlight_lines(lines@));
    }
    render_lines(&plain, font_config)
}

/// The extent between two bounds, and zero where they are out of order.
pub open spec fn extent(low: i64, high: i64) -> int {
    if high >= low {
        high - low
    } else {
        0
    }
}

/// Renders one text as a document of one line, from what the shaping engine
/// gave for the text. The canvas is the box of the line. There is no document
/// where the text has no run.
pub fn render_text_to_svg_file(
    shaped: &Option<Vec<ShapedGlyph>>,
    font_config: &FontConfig,
    render_config: &RenderConfig,
) -> (r: Option<Document>)
    ensures
        r is None <==> shape_spec(font_config@, run_view(*shaped), render_config.font_style())
            is None,
        r matches Some(doc) ==> {
            let line = seq![
                SpanView {
                    glyphs: run_view(*shaped),
                    style: render_config.font_style(),
                    color: None,
                },
            ];
            &&& holds_lines(doc, font_config@, seq![line])
            &&& doc.lines@.len() == 1
            &&& doc.lines@[0].runs@.len() == 1
            &&& doc.view_x == doc.lines@[0].runs@[0].layout.bbox.x_min
            &&& doc.view_y == doc.lines@[0].runs@[0].layout.bbox.y_min
            &&& doc.width == extent(
                doc.lines@[0].runs@[0].layout.bbox.x_min,
                doc.lines@[0].runs@[0].layout.bbox.x_max,
            )
            &&& doc.height == extent(
                doc.lines@[0].runs@[0].layout.bbox.y_min,
                doc.lines@[0].runs@[0].layout.bbox.y_max,
            )
        },
{
    let style = *render_config.get_font_style();
    let mut spans: Vec<LineSpan> = Vec::new();
    spans.push(LineSpan { glyphs: copy_run(shaped), style, color: None });
    let mut lines: Vec<Vec<LineSpan>> = Vec::new();
    lines.push(spans);
    let ghost line = seq![SpanView { glyphs: run_view(*shaped), style, color: None }];
    proof {
        assert(span_views(lines@[0]@) =~= line);
        assert(line_views(lines@) =~= seq![line]);
        assert(seq![line].drop_last() =~= Seq::<Seq<SpanView>>::empty());
        assert(seq![line].last() == line);
        assert(line_kept(font_config@, line) <==> shape_spec(
            font_config@,
            run_view(*shaped),
            style,
        ) is Some) by {
            assert(line[0].glyphs == run_view(*shaped));
        }
        assert(kept_lines(font_config@, seq![line].drop_last()).len() == 0);
        assert(kept_lines(font_config@, seq![line]) =~= if line_kept(font_config@, line) {
            seq![line]
        } else {
            Seq::<Seq<SpanView>>::empty()
        });
    }
    match render_lines(&lines, font_config) {
        Err(_) => None,
        Ok(doc) => {
            proof {
                assert(kept_lines(font_config@, seq![line])[0] == line);
            }
            let Document { symbols, lines, view_x, view_y, width, height } = doc;
            let bbox = lines[0].runs[0].layout.bbox;
            let width: u128 = if bbox.x_max >= bbox.x_min {
                (bbox.x_max as i128 - bbox.x_min as i128) as u128
            } else {
                0
            };
            let height: u128 = if bbox.y_max >= bbox.y_min {
                (bbox.y_max as i128 - bbox.y_min as i128) as u128
            } else {
                0
            };
            Some(Document { symbols, lines, view_x: bbox.x_min, view_y: bbox.y_min, width, height })
        },
    }
}

/// The style sheet of the drawing animation.
pub open spec fn animation_css() -> Seq<char> {
    "
  @keyframes draw {
    to {
      stroke-dashoffset: 0;
    }
  }

  .text {
    /* Adjust stroke-dasharray based on expected max path length if needed */
    stroke-dasharray: 1000 1000;
    stroke-dashoffset: 1000;
    animation: draw 2.3s ease forwards infinite;
  }"@
}

/// The style sheet that animates the drawing of a document's text.
pub fn get_animation_style() -> (css: String)
    ensures
        css@ == animation_css(),
{
    "
  @keyframes draw {
    to {
      stroke-dashoffset: 0;
    }
  }

  .text {
    /* Adjust stroke-dasharray based on expected max path length if needed */
    stroke-dasharray: 1000 1000;
    stroke-dashoffset: 1000;
    animation: draw 2.3s ease forwards infinite;
  }".to_owned()
}

} // verus!
