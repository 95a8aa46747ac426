use text2svg::cache::GlyphOutlines;
use text2svg::font::{
    approximate_font_weight, classify_face, contains_chars, font_full_name_to_weight,
    style_of_lowered, Face, FaceSlant, FaceSource, FontConfig, FontStyle, ParseFontStyleErr,
};
use text2svg::scale::FaceMetrics;

fn face(ascent: i32) -> Face {
    Face {
        metrics: FaceMetrics { units_per_em: 1000, ascent, descent: -200 },
        data: Vec::new(),
        outlines: GlyphOutlines::new(),
    }
}

fn source(name: &str, slant: FaceSlant, weight: i32, ascent: i32) -> FaceSource {
    FaceSource { full_name: name.to_string(), slant, weight, face: face(ascent) }
}

fn config(family: Vec<FaceSource>) -> FontConfig {
    FontConfig::new("Demo".to_string(), 64, "none".to_string(), "#000".to_string(), false, family)
}

#[test]
fn style_names() {
    assert_eq!(FontStyle::Thin.to_string(), "thin");
    assert_eq!(FontStyle::ExtraLight.to_string(), "extra_light");
    assert_eq!(FontStyle::Light.to_string(), "light");
    assert_eq!(FontStyle::Regular.to_string(), "regular");
    assert_eq!(FontStyle::Medium.to_string(), "medium");
    assert_eq!(FontStyle::SemiBold.to_string(), "semi_bold");
    assert_eq!(FontStyle::Bold.to_string(), "bold");
    assert_eq!(FontStyle::ExtraBold.to_string(), "extra_bold");
    assert_eq!(FontStyle::Black.to_string(), "black");
    assert_eq!(FontStyle::Italic.to_string(), "italic");
}

#[test]
fn a_style_is_found_again_from_its_name() {
    let all = [
        FontStyle::Thin,
        FontStyle::ExtraLight,
        FontStyle::Light,
        FontStyle::Regular,
        FontStyle::Medium,
        FontStyle::SemiBold,
        FontStyle::Bold,
        FontStyle::ExtraBold,
        FontStyle::Black,
        FontStyle::Italic,
    ];
    for style in all {
        assert_eq!(FontStyle::from_name(&style.to_string()), Ok(style));
    }
    assert_eq!(FontStyle::from_name("extralight"), Err(ParseFontStyleErr));
    assert_eq!(FontStyle::from_name("Bold"), Err(ParseFontStyleErr));
    assert_eq!(FontStyle::from_name("bold "), Err(ParseFontStyleErr));
    assert_eq!(FontStyle::from_name(""), Err(ParseFontStyleErr));
}

#[test]
fn style_slots_are_distinct_and_regular_is_first() {
    let all = [
        FontStyle::Thin,
        FontStyle::ExtraLight,
        FontStyle::Light,
        FontStyle::Regular,
        FontStyle::Medium,
        FontStyle::SemiBold,
        FontStyle::Bold,
        FontStyle::ExtraBold,
        FontStyle::Black,
        FontStyle::Italic,
    ];
    let mut seen = [false; 10];
    for style in all {
        let slot = style.slot_index() as usize;
        assert!(!seen[slot]);
        seen[slot] = true;
    }
    assert_eq!(FontStyle::Regular.slot_index(), 0);
    assert_eq!(ParseFontStyleErr, ParseFontStyleErr);
}

#[test]
fn weights_go_to_the_style_of_their_hundred() {
    assert_eq!(approximate_font_weight(100), FontStyle::Thin);
    assert_eq!(approximate_font_weight(199), FontStyle::Thin);
    assert_eq!(approximate_font_weight(200), FontStyle::ExtraLight);
    assert_eq!(approximate_font_weight(300), FontStyle::Light);
    assert_eq!(approximate_font_weight(399), FontStyle::Light);
    assert_eq!(approximate_font_weight(400), FontStyle::Regular);
    assert_eq!(approximate_font_weight(450), FontStyle::Regular);
    assert_eq!(approximate_font_weight(500), FontStyle::Medium);
    assert_eq!(approximate_font_weight(600), FontStyle::SemiBold);
    assert_eq!(approximate_font_weight(700), FontStyle::Bold);
    assert_eq!(approximate_font_weight(800), FontStyle::ExtraBold);
    assert_eq!(approximate_font_weight(899), FontStyle::ExtraBold);
    assert_eq!(approximate_font_weight(900), FontStyle::Black);
    assert_eq!(approximate_font_weight(1000), FontStyle::Black);
    assert_eq!(approximate_font_weight(99), FontStyle::Black);
    assert_eq!(approximate_font_weight(0), FontStyle::Black);
    assert_eq!(approximate_font_weight(-400), FontStyle::Black);
    assert_eq!(approximate_font_weight(i32::MAX), FontStyle::Black);
    assert_eq!(approximate_font_weight(i32::MIN), FontStyle::Black);
}

#[test]
fn full_names_tell_the_style() {
    assert_eq!(font_full_name_to_weight("Demo ExtraLight".to_string()), Some(FontStyle::ExtraLight));
    assert_eq!(font_full_name_to_weight("Demo Light".to_string()), Some(FontStyle::Light));
    assert_eq!(font_full_name_to_weight("Demo MEDIUM".to_string()), Some(FontStyle::Medium));
    assert_eq!(font_full_name_to_weight("Demo Regular".to_string()), Some(FontStyle::Regular));
    assert_eq!(font_full_name_to_weight("Demo SemiBold".to_string()), Some(FontStyle::SemiBold));
    assert_eq!(font_full_name_to_weight("Demo Bold".to_string()), Some(FontStyle::Bold));
    assert_eq!(font_full_name_to_weight("Demo ExtraBold".to_string()), Some(FontStyle::Bold));
    assert_eq!(font_full_name_to_weight("Demo Bold Light".to_string()), Some(FontStyle::Light));
    assert_eq!(font_full_name_to_weight("Demo Thin".to_string()), None);
    assert_eq!(font_full_name_to_weight("Demo Black Italic".to_string()), None);
    assert_eq!(font_full_name_to_weight("Demo Semi Bold".to_string()), Some(FontStyle::Bold));
    assert_eq!(font_full_name_to_weight("".to_string()), None);
}

#[test]
fn names_are_lowered_before_they_are_searched() {
    // In upper case the keyword is found only after the name is lowered.
    assert_eq!(style_of_lowered("DEMO BOLD"), None);
    assert_eq!(font_full_name_to_weight("DEMO BOLD".to_string()), Some(FontStyle::Bold));
    // The Kelvin sign lowers to the letter k, so no keyword is made of it.
    assert_eq!(font_full_name_to_weight("Demo \u{212A}".to_string()), None);
    assert_eq!(font_full_name_to_weight("Demo BO\u{212A}D".to_string()), None);
}

#[test]
fn substring_search() {
    let hay: Vec<char> = "abcabd".chars().collect();
    let find = |needle: &str| contains_chars(&hay, &needle.chars().collect());
    assert!(find(""));
    assert!(find("a"));
    assert!(find("abd"));
    assert!(find("cab"));
    assert!(find("abcabd"));
    assert!(!find("abcabda"));
    assert!(!find("abe"));
    assert!(!find("ba"));
    assert!(contains_chars(&Vec::new(), &Vec::new()));
    assert!(!contains_chars(&Vec::new(), &vec!['a']));
}

#[test]
fn faces_are_classified_by_name_then_slant_and_weight() {
    assert_eq!(classify_face("Demo Bold", FaceSlant::Italic, 400), Some(FontStyle::Bold));
    assert_eq!(classify_face("Demo", FaceSlant::Normal, 400), Some(FontStyle::Regular));
    assert_eq!(classify_face("Demo", FaceSlant::Normal, 250), Some(FontStyle::ExtraLight));
    assert_eq!(classify_face("Demo", FaceSlant::Normal, 950), Some(FontStyle::Black));
    assert_eq!(classify_face("Demo", FaceSlant::Italic, 700), Some(FontStyle::Italic));
    assert_eq!(classify_face("Demo", FaceSlant::Oblique, 700), None);
    assert_eq!(classify_face("Demo Light Oblique", FaceSlant::Oblique, 700), Some(FontStyle::Light));
}

#[test]
fn a_new_configuration_keeps_what_it_was_given() {
    let c = config(Vec::new());
    assert_eq!(c.get_font_name(), "Demo");
    assert_eq!(c.get_size(), 64);
    assert_eq!(c.get_fill_color(), "none");
    assert_eq!(c.get_color(), "#000");
    assert!(!c.get_debug());
    assert_eq!(c.get_letter_space(), 0);
    assert!(c.get_regular_font().is_none());
    assert!(c.resolve_face(FontStyle::Bold).is_none());
}

#[test]
fn default_features_are_switched_on() {
    let mut c = config(Vec::new());
    let names: Vec<&str> = c.get_features().iter().map(|f| f.name.as_str()).collect();
    assert_eq!(names, vec!["kern", "liga", "calt", "clig"]);
    let kern = c.get_features()[0].setting;
    assert_eq!(kern.tag, u32::from_be_bytes(*b"kern"));
    assert_eq!(kern.value, 1);
    assert_eq!(kern.start, 0);
    assert_eq!(kern.end, u32::MAX);
    assert_eq!(c.get_features()[3].setting.tag, u32::from_be_bytes(*b"clig"));
    assert!(c.has_feature("kern"));
    assert!(c.has_feature("clig"));
    assert!(!c.has_feature("smcp"));
    assert!(!c.has_feature(""));
}

#[test]
fn features_are_added_replaced_and_removed() {
    let mut c = config(Vec::new());
    assert!(c.add_feature("smcp"));
    assert!(c.has_feature("smcp"));
    assert_eq!(c.get_features().len(), 5);
    // Switched on again, the feature moves to the end and is held once.
    assert!(c.add_feature("kern"));
    let names: Vec<&str> = c.get_features().iter().map(|f| f.name.as_str()).collect();
    assert_eq!(names, vec!["liga", "calt", "clig", "smcp", "kern"]);
    c.remove_feature("calt");
    assert!(!c.has_feature("calt"));
    c.remove_feature("calt");
    c.remove_feature("none");
    let names: Vec<&str> = c.get_features().iter().map(|f| f.name.as_str()).collect();
    assert_eq!(names, vec!["liga", "clig", "smcp", "kern"]);
}

#[test]
fn feature_strings_are_parsed_by_the_shaping_engine() {
    let mut c = config(Vec::new());
    assert!(c.add_feature("-liga"));
    assert!(c.add_feature("aalt[3:5]=2"));
    assert!(c.has_feature("-liga"));
    let off = c.get_features().iter().find(|f| f.name == "-liga").unwrap().setting;
    assert_eq!(off.tag, u32::from_be_bytes(*b"liga"));
    assert_eq!(off.value, 0);
    let ranged = c.get_features().iter().find(|f| f.name == "aalt[3:5]=2").unwrap().setting;
    assert_eq!(ranged.tag, u32::from_be_bytes(*b"aalt"));
    assert_eq!((ranged.value, ranged.start, ranged.end), (2, 3, 5));
    let before = c.get_features().len();
    assert!(!c.add_feature(""));
    assert!(!c.add_feature("kern=x"));
    assert_eq!(c.get_features().len(), before);
    assert!(!c.has_feature(""));
}

#[test]
fn a_feature_value_that_the_engine_does_not_take_is_refused() {
    let mut c = config(Vec::new());
    let before = c.get_features().len();
    assert!(!c.add_feature("aalt=65536"));
    assert!(!c.add_feature("kern=4294967295"));
    assert!(!c.has_feature("aalt=65536"));
    assert_eq!(c.get_features().len(), before);
    assert!(c.add_feature("aalt=65535"));
    assert_eq!(c.get_features().last().unwrap().setting.value, 65535);
    // A refused string does not switch off the feature that it names.
    assert!(!c.add_feature("aalt=65536"));
    assert!(c.has_feature("aalt=65535"));
    for feature in c.get_features() {
        assert!(feature.setting.value <= 0xFFFF);
    }
}

#[test]
fn a_style_falls_back_to_the_regular_face() {
    let c = config(vec![
        source("Demo Regular", FaceSlant::Normal, 400, 1),
        source("Demo Bold", FaceSlant::Normal, 700, 2),
        source("Demo", FaceSlant::Italic, 400, 3),
        source("Demo", FaceSlant::Oblique, 400, 4),
    ]);
    assert_eq!(c.get_regular_font().unwrap().metrics.ascent, 1);
    assert_eq!(c.get_font_by_style(&FontStyle::Bold).unwrap().metrics.ascent, 2);
    assert_eq!(c.get_font_by_style(&FontStyle::Italic).unwrap().metrics.ascent, 3);
    assert!(c.get_font_by_style(&FontStyle::Light).is_none());
    let (style, face) = c.resolve_face(FontStyle::Bold).unwrap();
    assert_eq!((style, face.metrics.ascent), (FontStyle::Bold, 2));
    let (style, face) = c.resolve_face(FontStyle::Light).unwrap();
    assert_eq!((style, face.metrics.ascent), (FontStyle::Regular, 1));
}

#[test]
fn without_a_regular_face_only_own_styles_resolve() {
    let c = config(vec![source("Demo Bold", FaceSlant::Normal, 700, 2)]);
    assert!(c.resolve_face(FontStyle::Bold).is_some());
    assert!(c.resolve_face(FontStyle::Regular).is_none());
    assert!(c.resolve_face(FontStyle::Italic).is_none());
}

#[test]
fn a_later_face_of_one_style_is_served() {
    let c = config(vec![
        source("Demo Regular", FaceSlant::Normal, 400, 1),
        source("Demo", FaceSlant::Normal, 410, 2),
    ]);
    assert_eq!(c.get_regular_font().unwrap().metrics.ascent, 2);
}

#[test]
fn letter_space_is_set_in_thousandths_of_an_em() {
    let mut c = config(Vec::new());
    c.set_letter_space(100).set_letter_space(-25);
    assert_eq!(c.get_letter_space(), -25);
    assert_eq!(c.get_size(), 64);
}
