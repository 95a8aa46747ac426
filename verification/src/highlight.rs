//! What syntax highlighting hands to the layout: a colour as text, and the
//! font style of a highlighted span.

use vstd::prelude::*;
use crate::font::FontStyle;
use crate::text::{decimal, digit_char, push_decimal, push_str, string_of};

verus! {

/// The built-in themes.
#[derive(Debug, Clone, Copy, PartialEq, Eq, Structural)]
pub enum HighlightTheme {
    GruvboxDark,
    GruvboxLight,
}

/// `syntect::highlighting::Color`: four public channels of eight bits each,
/// red, green, blue and alpha, which verified code reads as they are.
#[verifier::external_type_specification]
pub struct ExColor(syntect::highlighting::Color);

/// `syntect::highlighting::Style`: the style of one highlighted region.
/// Nothing inside it is known here; it is carried to the two readers below.
#[verifier::external_type_specification]
#[verifier::external_body]
pub struct ExStyle(syntect::highlighting::Style);

/// Reads the field `font_style` of a `syntect::highlighting::Style` and
/// calls `FontStyle::bits` on it: the raw flags of a span's font style.
/// Nothing is claimed of the value.
#[verifier::external_body]
fn style_font_bits(style: &syntect::highlighting::Style) -> (bits: u8) {
    style.font_style.bits()
}

/// Reads the field `foreground` of a `syntect::highlighting::Style`: the
/// colour of a span's text. Nothing is claimed of the value.
#[verifier::external_body]
fn style_foreground(style: &syntect::highlighting::Style) -> (color: syntect::highlighting::Color) {
    style.foreground
}

/// A colour of a theme, which can be written as `rgba(..)`.
pub struct HighlightColor {
    inner: syntect::highlighting::Color,
}

/// Thousandths of full opacity that an alpha of `a` out of 255 stands for,
/// rounded to the nearest.
pub open spec fn alpha_thousandths(a: u8) -> int {
    (a as int * 1000 + 127) / 255
}

/// The three decimal digits of `n`, with leading zeros.
pub open spec fn three_digits(n: int) -> Seq<char> {
    seq![digit_char(n / 100 % 10), digit_char(n / 10 % 10), digit_char(n % 10)]
}

/// The text of a colour: `rgba(r,g,b,a)` with the three channels in decimal
/// and the opacity as a fraction with three decimals.
pub open spec fn rgba_text(r: u8, g: u8, b: u8, a: u8) -> Seq<char> {
    "rgba("@ + decimal(r as nat) + seq![','] + decimal(g as nat) + seq![','] + decimal(b as nat)
        + seq![','] + decimal((alpha_thousandths(a) / 1000) as nat) + seq!['.'] + three_digits(
        alpha_thousandths(a) % 1000,
    ) + seq![')']
}

impl HighlightColor {
    /// The red, green, blue and alpha channels.
    pub closed spec fn channels(&self) -> (u8, u8, u8, u8) {
        (self.inner.r, self.inner.g, self.inner.b, self.inner.a)
    }

    /// Wraps a colour of a theme.
    pub fn new(color: syntect::highlighting::Color) -> (c: HighlightColor)
        ensures
            c.channels() == (color.r, color.g, color.b, color.a),
    {
        HighlightColor { inner: color }
    }

    /// The colour of a highlighted span's text.
    pub fn of_style(style: &syntect::highlighting::Style) -> (c: HighlightColor) {
        HighlightColor { inner: style_foreground(style) }
    }

    /// The colour as `rgba(r,g,b,a)`.
    pub fn to_string(&self) -> (s: String)
        ensures
            s@ == rgba_text(
                self.channels().0,
                self.channels().1,
                self.channels().2,
                self.channels().3,
            ),
    {
        let mut out: Vec<char> = Vec::new();
        push_str(&mut out, "rgba(");
        push_decimal(&mut out, self.inner.r as u64);
        out.push(',');
        push_decimal(&mut out, self.inner.g as u64);
        out.push(',');
        push_decimal(&mut out, self.inner.b as u64);
        out.push(',');
        let alpha: u32 = (self.inner.a as u32 * 1000 + 127) / 255;
        push_decimal(&mut out, (alpha / 1000) as u64);
        out.push('.');
        let fraction: u32 = alpha % 1000;
        out.push((0x30u8 + (fraction / 100 % 10) as u8) as char);
        out.push((0x30u8 + (fraction / 10 % 10) as u8) as char);
        out.push((0x30u8 + (fraction % 10) as u8) as char);
        out.push(')');
        let s = string_of(&out, 0, out.len());
        assert(s@ =~= rgba_text(self.inner.r, self.inner.g, self.inner.b, self.inner.a));
        s
    }
}

/// The flag of a bold span.
pub const BOLD_BIT: u8 = 1;

/// The flag of an italic span.
pub const ITALIC_BIT: u8 = 4;

/// The font style of a highlighted span, as its raw flags.
#[derive(Debug, Clone, Copy, PartialEq, Eq, Structural)]
pub struct HighlightFontStyle {
    bits: u8,
}

/// The style in which a span with the given flags is set: italic where the
/// italic flag is set, else bold where the bold flag is set, else regular.
pub open spec fn style_of_bits(bits: u8) -> FontStyle {
    if bits & ITALIC_BIT == ITALIC_BIT {
        FontStyle::Italic
    } else if bits & BOLD_BIT == BOLD_BIT {
        FontStyle::Bold
    } else {
        FontStyle::Regular
    }
}

impl HighlightFontStyle {
    /// The raw flags.
    pub closed spec fn bits(&self) -> u8 {
        self.bits
    }

    /// The font style of a highlighted span.
    pub fn of_style(style: &syntect::highlighting::Style) -> (s: HighlightFontStyle) {
        HighlightFontStyle { bits: style_font_bits(style) }
    }

    /// The font style of a span with the given raw flags.
    pub fn new(bits: u8) -> (s: HighlightFontStyle)
        ensures
            s.bits() == bits,
    {
        HighlightFontStyle { bits }
    }

    /// The style in which the span is set. Italic wins over bold.
    pub fn get_style(&self) -> (style: FontStyle)
        ensures
            style == style_of_bits(self.bits()),
    {
        if self.bits & ITALIC_BIT == ITALIC_BIT {
            return FontStyle::Italic;
        }
        if self.bits & BOLD_BIT == BOLD_BIT {
            return FontStyle::Bold;
        }
        FontStyle::Regular
    }
}

} // verus!
