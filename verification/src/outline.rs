//! Glyph outlines and their transcoding into path data: every outline
//! command is mapped through an affine transform, in order, one for one.

use vstd::prelude::*;

verus! {

/// One command of a glyph's outline, in design units with the y axis up.
#[derive(Clone, Copy, Debug, PartialEq, Eq, Structural)]
pub enum OutlineCommand {
    /// Starts a subpath at a point.
    MoveTo { x: i32, y: i32 },
    /// A straight line to a point.
    LineTo { x: i32, y: i32 },
    /// A quadratic curve with one control point.
    QuadTo { x1: i32, y1: i32, x: i32, y: i32 },
    /// A cubic curve with two control points.
    CurveTo { x1: i32, y1: i32, x2: i32, y2: i32, x: i32, y: i32 },
    /// Closes the current subpath.
    Close,
}

/// One command of path data, in scaled positions with the y axis down.
#[derive(Clone, Copy, Debug, PartialEq, Eq, Structural)]
pub enum PathCommand {
    /// Starts a subpath at a point.
    MoveTo { x: i128, y: i128 },
    /// A straight line to a point.
    LineTo { x: i128, y: i128 },
    /// A quadratic curve with one control point.
    QuadTo { x1: i128, y1: i128, x: i128, y: i128 },
    /// A cubic curve with two control points.
    CurveTo { x1: i128, y1: i128, x2: i128, y2: i128, x: i128, y: i128 },
    /// Closes the current subpath.
    Close,
}

/// An affine transform without rotation: a scale and a translation per axis.
#[derive(Clone, Copy, Debug, PartialEq, Eq, Structural)]
pub struct Transform {
    pub scale_x: i64,
    pub scale_y: i64,
    pub translate_x: i64,
    pub translate_y: i64,
}

impl Transform {
    /// The image of an x coordinate.
    pub open spec fn tx(&self, x: int) -> int {
        self.translate_x + x * self.scale_x
    }

    /// The image of a y coordinate.
    pub open spec fn ty(&self, y: int) -> int {
        self.translate_y + y * self.scale_y
    }

    /// The image of an outline command: the same kind of command, with each
    /// of its points mapped.
    pub open spec fn apply(&self, c: OutlineCommand) -> PathCommand {
        match c {
            OutlineCommand::MoveTo { x, y } => PathCommand::MoveTo {
                x: self.tx(x as int) as i128,
                y: self.ty(y as int) as i128,
            },
            OutlineCommand::LineTo { x, y } => PathCommand::LineTo {
                x: self.tx(x as int) as i128,
                y: self.ty(y as int) as i128,
            },
            OutlineCommand::QuadTo { x1, y1, x, y } => PathCommand::QuadTo {
                x1: self.tx(x1 as int) as i128,
                y1: self.ty(y1 as int) as i128,
                x: self.tx(x as int) as i128,
                y: self.ty(y as int) as i128,
            },
            OutlineCommand::CurveTo { x1, y1, x2, y2, x, y } => PathCommand::CurveTo {
                x1: self.tx(x1 as int) as i128,
                y1: self.ty(y1 as int) as i128,
                x2: self.tx(x2 as int) as i128,
                y2: self.ty(y2 as int) as i128,
                x: self.tx(x as int) as i128,
                y: self.ty(y as int) as i128,
            },
            OutlineCommand::Close => PathCommand::Close,
        }
    }

    /// The transform that scales by `scale`, flips the y axis and leaves the
    /// origin in place: what a definition at the local origin is drawn with.
    pub open spec fn flipped(scale: int) -> Transform {
        Transform {
            scale_x: scale as i64,
            scale_y: (-scale) as i64,
            translate_x: 0,
            translate_y: 0,
        }
    }

    /// Maps an x coordinate.
    pub fn map_x(&self, x: i32) -> (r: i128)
        ensures
            r == self.tx(x as int),
    {
        let s: i128 = self.scale_x as i128;
        assert(-0x8000_0000 * 0x8000_0000_0000_0000 <= x * s <= 0x8000_0000
            * 0x8000_0000_0000_0000) by (nonlinear_arith)
            requires
                -0x8000_0000 <= x <= 0x8000_0000,
                -0x8000_0000_0000_0000 <= s <= 0x8000_0000_0000_0000,
        ;
        self.translate_x as i128 + x as i128 * s
    }

    /// Maps a y coordinate.
    pub fn map_y(&self, y: i32) -> (r: i128)
        ensures
            r == self.ty(y as int),
    {
        let s: i128 = self.scale_y as i128;
        assert(-0x8000_0000 * 0x8000_0000_0000_0000 <= y * s <= 0x8000_0000
            * 0x8000_0000_0000_0000) by (nonlinear_arith)
            requires
                -0x8000_0000 <= y <= 0x8000_0000,
                -0x8000_0000_0000_0000 <= s <= 0x8000_0000_0000_0000,
        ;
        self.translate_y as i128 + y as i128 * s
    }
}

/// The path data of an outline under a transform: the image of each command,
/// in the order in which the outline gives them.
pub open spec fn transcode_spec(outline: Seq<OutlineCommand>, t: Transform) -> Seq<PathCommand> {
    Seq::new(outline.len(), |i: int| t.apply(outline[i]))
}

/// Collects path data while the commands of one outline are fed to it.
#[derive(Debug)]
pub struct GlyphPathBuilder {
    /// The transform that every point goes through.
    pub transform: Transform,
    /// The path data so far.
    pub d: Vec<PathCommand>,
}

impl GlyphPathBuilder {
    /// A builder with empty path data.
    pub fn new(scale_x: i64, scale_y: i64, x_offset: i64, y_offset: i64) -> (b: GlyphPathBuilder)
        ensures
            b.transform == (Transform {
                scale_x,
                scale_y,
                translate_x: x_offset,
                translate_y: y_offset,
            }),
            b.d@.len() == 0,
    {
        GlyphPathBuilder {
            transform: Transform { scale_x, scale_y, translate_x: x_offset, translate_y: y_offset },
            d: Vec::new(),
        }
    }

    /// The image of an x coordinate.
    pub fn tx(&self, x: i32) -> (r: i128)
        ensures
            r == self.transform.tx(x as int),
    {
        self.transform.map_x(x)
    }

    /// The image of a y coordinate.
    pub fn ty(&self, y: i32) -> (r: i128)
        ensures
            r == self.transform.ty(y as int),
    {
        self.transform.map_y(y)
    }

    /// Appends the start of a subpath.
    pub fn move_to(&mut self, x: i32, y: i32)
        ensures
            final(self).transform == old(self).transform,
            final(self).d@ == old(self).d@.push(
                old(self).transform.apply(OutlineCommand::MoveTo { x, y }),
            ),
    {
        let c = PathCommand::MoveTo { x: self.tx(x), y: self.ty(y) };
        self.d.push(c);
    }

    /// Appends a straight line.
    pub fn line_to(&mut self, x: i32, y: i32)
        ensures
            final(self).transform == old(self).transform,
            final(self).d@ == old(self).d@.push(
                old(self).transform.apply(OutlineCommand::LineTo { x, y }),
            ),
    {
        let c = PathCommand::LineTo { x: self.tx(x), y: self.ty(y) };
        self.d.push(c);
    }

    /// Appends a quadratic curve.
    pub fn quad_to(&mut self, x1: i32, y1: i32, x: i32, y: i32)
        ensures
            final(self).transform == old(self).transform,
            final(self).d@ == old(self).d@.push(
                old(self).transform.apply(OutlineCommand::QuadTo { x1, y1, x, y }),
            ),
    {
        let c = PathCommand::QuadTo {
            x1: self.tx(x1),
            y1: self.ty(y1),
            x: self.tx(x),
            y: self.ty(y),
        };
        self.d.push(c);
    }

    /// Appends a cubic curve.
    pub fn curve_to(&mut self, x1: i32, y1: i32, x2: i32, y2: i32, x: i32, y: i32)
        ensures
            final(self).transform == old(self).transform,
            final(self).d@ == old(self).d@.push(
                old(self).transform.apply(OutlineCommand::CurveTo { x1, y1, x2, y2, x, y }),
            ),
    {
        let c = PathCommand::CurveTo {
            x1: self.tx(x1),
            y1: self.ty(y1),
            x2: self.tx(x2),
            y2: self.ty(y2),
            x: self.tx(x),
            y: self.ty(y),
        };
        self.d.push(c);
    }

    /// Appends the end of a subpath.
    pub fn close(&mut self)
        ensures
            final(self).transform == old(self).transform,
            final(self).d@ == old(self).d@.push(old(self).transform.apply(OutlineCommand::Close)),
    {
        self.d.push(PathCommand::Close);
    }

    /// Feeds one outline command to the builder.
    pub fn command(&mut self, c: OutlineCommand)
        ensures
            final(self).transform == old(self).transform,
            final(self).d@ == old(self).d@.push(old(self).transform.apply(c)),
    {
        match c {
            OutlineCommand::MoveTo { x, y } => self.move_to(x, y),
            OutlineCommand::LineTo { x, y } => self.line_to(x, y),
            OutlineCommand::QuadTo { x1, y1, x, y } => self.quad_to(x1, y1, x, y),
            OutlineCommand::CurveTo { x1, y1, x2, y2, x, y } => self.curve_to(x1, y1, x2, y2, x, y),
            OutlineCommand::Close => self.close(),
        }
    }
}

/// Transcodes an outline into path data. Order and subpath structure are
/// kept as they come; an empty outline gives empty path data.
pub fn transcode(outline: &Vec<OutlineCommand>, transform: Transform) -> (d: Vec<PathCommand>)
    ensures
        d@ == transcode_spec(outline@, transform),
{
    let mut builder = GlyphPathBuilder::new(
        transform.scale_x,
        transform.scale_y,
        transform.translate_x,
        transform.translate_y,
    );
    let mut i: usize = 0;
    while i < outline.len()
        invariant
            i <= outline.len(),
            builder.transform == transform,
            builder.d@ == transcode_spec(outline@.take(i as int), transform),
        decreases outline.len() - i,
    {
        builder.command(outline[i]);
        proof {
            assert(builder.d@ =~= transcode_spec(outline@.take(i + 1), transform));
        }
        i += 1;
    }
    proof {
        assert(outline@.take(i as int) =~= outline@);
    }
    builder.d
}

} // verus!
