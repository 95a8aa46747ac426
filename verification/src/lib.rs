//! Text rendered as scalable vector outlines: width-bounded line wrapping,
//! glyph outline transcoding, a per-document symbol cache, line layout and
//! document assembly, all over exact integer arithmetic.

pub mod text;
pub mod wrap;
pub mod scale;
pub mod outline;
pub mod cache;
pub mod layout;
pub mod font;
pub mod document;
pub mod render;
pub mod highlight;
pub mod shape;
