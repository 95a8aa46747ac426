use syntect::highlighting::{Color, FontStyle as SynFontStyle, Style};
use text2svg::font::FontStyle as AppFontStyle;
use text2svg::highlight::{HighlightColor, HighlightFontStyle, HighlightTheme};

#[test]
fn test_font_style_mapping() {
    // Test Italic preference
    let bold_italic = SynFontStyle::ITALIC | SynFontStyle::BOLD;
    let italic_style = HighlightFontStyle::new(bold_italic.bits());
    assert_eq!(italic_style.get_style(), AppFontStyle::Italic);

    // Test Italic alone
    let italic_only = SynFontStyle::ITALIC;
    let italic_style_only = HighlightFontStyle::new(italic_only.bits());
    assert_eq!(italic_style_only.get_style(), AppFontStyle::Italic);

    // Test Bold alone
    let bold_only = SynFontStyle::BOLD;
    let bold_style = HighlightFontStyle::new(bold_only.bits());
    assert_eq!(bold_style.get_style(), AppFontStyle::Bold);

    // Test Normal (no flags)
    let normal_style = SynFontStyle::empty();
    let normal_app_style = HighlightFontStyle::new(normal_style.bits());
    assert_eq!(normal_app_style.get_style(), AppFontStyle::Regular);

    // Test Underline (should map to Regular as we don't handle it)
    let underline_style = SynFontStyle::UNDERLINE;
    let underline_app_style = HighlightFontStyle::new(underline_style.bits());
    assert_eq!(underline_app_style.get_style(), AppFontStyle::Regular);
}

#[test]
fn test_color_display() {
    // Opaque black
    let black = HighlightColor::new(Color { r: 0, g: 0, b: 0, a: 255 });
    assert_eq!(black.to_string(), "rgba(0,0,0,1.000)");

    // Opaque white
    let white = HighlightColor::new(Color { r: 255, g: 255, b: 255, a: 255 });
    assert_eq!(white.to_string(), "rgba(255,255,255,1.000)");

    // Semi-transparent red
    let red_transparent = HighlightColor::new(Color { r: 255, g: 0, b: 0, a: 128 });
    assert_eq!(red_transparent.to_string(), "rgba(255,0,0,0.502)");

    // Fully transparent
    let fully_transparent = HighlightColor::new(Color { r: 100, g: 100, b: 100, a: 0 });
    assert_eq!(fully_transparent.to_string(), "rgba(100,100,100,0.000)");
}

#[test]
fn every_alpha_is_written_as_the_float_formatter_writes_it() {
    for a in 0..=255u8 {
        let text = HighlightColor::new(Color { r: 1, g: 20, b: 199, a }).to_string();
        let expected = format!("rgba(1,20,199,{:.3})", a as f32 / 255.0);
        assert_eq!(text, expected);
    }
}

#[test]
fn flags_beside_bold_and_italic_do_not_count() {
    assert_eq!(HighlightFontStyle::new(0).get_style(), AppFontStyle::Regular);
    assert_eq!(HighlightFontStyle::new(1).get_style(), AppFontStyle::Bold);
    assert_eq!(HighlightFontStyle::new(2).get_style(), AppFontStyle::Regular);
    assert_eq!(HighlightFontStyle::new(3).get_style(), AppFontStyle::Bold);
    assert_eq!(HighlightFontStyle::new(4).get_style(), AppFontStyle::Italic);
    assert_eq!(HighlightFontStyle::new(7).get_style(), AppFontStyle::Italic);
    assert_eq!(HighlightFontStyle::new(0xF8).get_style(), AppFontStyle::Regular);
    assert_eq!(HighlightFontStyle::new(0xFF).get_style(), AppFontStyle::Italic);
    assert_ne!(HighlightTheme::GruvboxDark, HighlightTheme::GruvboxLight);
}

#[test]
fn a_style_hands_over_its_flags_and_its_foreground() {
    let style = Style {
        foreground: Color { r: 1, g: 2, b: 3, a: 51 },
        background: Color { r: 9, g: 9, b: 9, a: 9 },
        font_style: SynFontStyle::BOLD | SynFontStyle::UNDERLINE,
    };
    assert_eq!(HighlightFontStyle::of_style(&style), HighlightFontStyle::new(3));
    assert_eq!(HighlightFontStyle::of_style(&style).get_style(), AppFontStyle::Bold);
    assert_eq!(HighlightColor::of_style(&style).to_string(), "rgba(1,2,3,0.200)");
    let italic = Style { font_style: SynFontStyle::ITALIC, ..style };
    assert_eq!(HighlightFontStyle::of_style(&italic).get_style(), AppFontStyle::Italic);
}
