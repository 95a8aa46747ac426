//! Shaping: a text and a face become a run of glyphs with advances and
//! offsets. The shaping engine does that work outside this library; this
//! module tells which face a text of a style is shaped with, and takes what
//! the engine gave.

use vstd::prelude::*;
use crate::font::{FontConfig, FontConfigView, FontStyle, resolve_style};
use crate::layout::{MAX_RUN_GLYPHS, ShapedGlyph};

verus! {

/// A shaped run and the style of the face that it was shaped with.
#[derive(Debug)]
pub struct ShapedRun<'a> {
    /// The style under which the face is kept; its slot tells the glyphs of
    /// different faces apart.
    pub style: FontStyle,
    /// The glyphs in visual order.
    pub glyphs: &'a Vec<ShapedGlyph>,
}

/// What the shaping engine gave, as a value: the glyphs in order, or nothing
/// where it gave no run.
pub open spec fn run_view(shaped: Option<Vec<ShapedGlyph>>) -> Option<Seq<ShapedGlyph>> {
    match shaped {
        Some(glyphs) => Some(glyphs@),
        None => None,
    }
}

/// The face's style and the glyphs of a text of the requested style, given
/// what the shaping engine gave for the text. The text is set in the style's
/// own face, else in the regular face. There is no run where the family has
/// neither face, where the engine gave none, or where the run is longer than
/// a layout takes.
pub open spec fn shape_spec(
    config: FontConfigView,
    shaped: Option<Seq<ShapedGlyph>>,
    style: FontStyle,
) -> Option<(FontStyle, Seq<ShapedGlyph>)> {
    match resolve_style(config.faces, style) {
        None => None,
        Some(resolved) => match shaped {
            None => None,
            Some(glyphs) => if glyphs.len() <= MAX_RUN_GLYPHS {
                Some((resolved, glyphs))
            } else {
                None
            },
        },
    }
}

/// Takes the result of shaping: a run that a layout takes is passed on with
/// the face's style, a longer one is dropped.
pub fn accept_run<'a>(style: FontStyle, glyphs: &'a Vec<ShapedGlyph>) -> (r: Option<ShapedRun<'a>>)
    ensures
        match r {
            Some(run) => glyphs@.len() <= MAX_RUN_GLYPHS && run.style == style && run.glyphs@
                == glyphs@,
            None => glyphs@.len() > MAX_RUN_GLYPHS,
        },
{
    if glyphs.len() <= MAX_RUN_GLYPHS {
        Some(ShapedRun { style, glyphs })
    } else {
        None
    }
}

/// The run of a text of the requested style, from what the shaping engine
/// gave for the text in the face that [`FontConfig::resolve_face`] names for
/// the style, with the features of the configuration.
pub fn text_shape<'a>(
    shaped: &'a Option<Vec<ShapedGlyph>>,
    font_config: &FontConfig,
    font_style: &FontStyle,
) -> (r: Option<ShapedRun<'a>>)
    ensures
        match r {
            Some(run) => shape_spec(font_config@, run_view(*shaped), *font_style) == Some(
                (run.style, run.glyphs@),
            ),
            None => shape_spec(font_config@, run_view(*shaped), *font_style) is None,
        },
{
    match font_config.resolve_face(*font_style) {
        None => None,
        Some((resolved, _)) => match shaped {
            None => None,
            Some(glyphs) => accept_run(resolved, glyphs),
        },
    }
}

/// A copy of what the shaping engine gave.
pub fn copy_run(shaped: &Option<Vec<ShapedGlyph>>) -> (r: Option<Vec<ShapedGlyph>>)
    ensures
        run_view(r) == run_view(*shaped),
{
    match shaped {
        None => None,
        Some(glyphs) => {
            let mut copy: Vec<ShapedGlyph> = Vec::new();
            let mut i: usize = 0;
            while i < glyphs.len()
                invariant
                    i <= glyphs.len(),
                    copy@ == glyphs@.take(i as int),
                decreases glyphs.len() - i,
            {
                copy.push(glyphs[i]);
                proof {
                    assert(copy@ =~= glyphs@.take(i + 1));
                }
                i += 1;
            }
            proof {
                assert(glyphs@.take(glyphs@.len() as int) =~= glyphs@);
            }
            Some(copy)
        },
    }
}

} // verus!
