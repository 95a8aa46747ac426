//! Font styles and the faces of one family: how a face is classified by its
//! name, slant and weight, and which face serves a requested style.

use vstd::prelude::*;
use crate::cache::GlyphOutlines;
use crate::scale::FaceMetrics;
use crate::text::{chars_of, same_chars};

verus! {

/// The styles under which the faces of a family are kept.
#[derive(Debug, Clone, Copy, PartialEq, Eq, Hash, Structural)]
pub enum FontStyle {
    Thin,
    ExtraLight,
    Light,
    Regular,
    Medium,
    SemiBold,
    Bold,
    ExtraBold,
    Black,
    Italic,
}

/// A name that is no style's name.
#[derive(Debug, Clone, Copy, PartialEq, Eq, Structural)]
pub struct ParseFontStyleErr;

/// The slant of a face.
#[derive(Debug, Clone, Copy, PartialEq, Eq, Structural)]
pub enum FaceSlant {
    Normal,
    Italic,
    Oblique,
}

impl FontStyle {
    /// The style's name: lower case, words joined by an underscore.
    pub open spec fn name(self) -> Seq<char> {
        match self {
            FontStyle::Thin => "thin"@,
            FontStyle::ExtraLight => "extra_light"@,
            FontStyle::Light => "light"@,
            FontStyle::Regular => "regular"@,
            FontStyle::Medium => "medium"@,
            FontStyle::SemiBold => "semi_bold"@,
            FontStyle::Bold => "bold"@,
            FontStyle::ExtraBold => "extra_bold"@,
            FontStyle::Black => "black"@,
            FontStyle::Italic => "italic"@,
        }
    }

    /// The slot of the style's face within a family. The regular face has
    /// slot zero.
    pub open spec fn slot(self) -> u8 {
        match self {
            FontStyle::Regular => 0,
            FontStyle::Thin => 1,
            FontStyle::ExtraLight => 2,
            FontStyle::Light => 3,
            FontStyle::Medium => 4,
            FontStyle::SemiBold => 5,
            FontStyle::Bold => 6,
            FontStyle::ExtraBold => 7,
            FontStyle::Black => 8,
            FontStyle::Italic => 9,
        }
    }

    /// The style's name as a string.
    pub fn to_string(&self) -> (s: String)
        ensures
            s@ == self.name(),
    {
        match *self {
            FontStyle::Thin => "thin".to_owned(),
            FontStyle::Light => "light".to_owned(),
            FontStyle::ExtraLight => "extra_light".to_owned(),
            FontStyle::Regular => "regular".to_owned(),
            FontStyle::Medium => "medium".to_owned(),
            FontStyle::Bold => "bold".to_owned(),
            FontStyle::SemiBold => "semi_bold".to_owned(),
            FontStyle::ExtraBold => "extra_bold".to_owned(),
            FontStyle::Black => "black".to_owned(),
            FontStyle::Italic => "italic".to_owned(),
        }
    }

    /// The style of a name, as [`FontStyle::to_string`] writes it: the one
    /// style that has the name, or an error where no style has it.
    pub fn from_name(name: &str) -> (r: Result<FontStyle, ParseFontStyleErr>)
        ensures
            match r {
                Ok(style) => name@ == style.name(),
                Err(_) => forall|style: FontStyle| name@ != #[trigger] style.name(),
            },
            forall|style: FontStyle|
                name@ == #[trigger] style.name() ==> r == Ok::<FontStyle, ParseFontStyleErr>(style),
    {
        let chars = chars_of(name);
        let r = if same_chars(&chars, &chars_of("thin")) {
            Ok(FontStyle::Thin)
        } else if same_chars(&chars, &chars_of("extra_light")) {
            Ok(FontStyle::ExtraLight)
        } else if same_chars(&chars, &chars_of("light")) {
            Ok(FontStyle::Light)
        } else if same_chars(&chars, &chars_of("regular")) {
            Ok(FontStyle::Regular)
        } else if same_chars(&chars, &chars_of("medium")) {
            Ok(FontStyle::Medium)
        } else if same_chars(&chars, &chars_of("semi_bold")) {
            Ok(FontStyle::SemiBold)
        } else if same_chars(&chars, &chars_of("bold")) {
            Ok(FontStyle::Bold)
        } else if same_chars(&chars, &chars_of("extra_bold")) {
            Ok(FontStyle::ExtraBold)
        } else if same_chars(&chars, &chars_of("black")) {
            Ok(FontStyle::Black)
        } else if same_chars(&chars, &chars_of("italic")) {
            Ok(FontStyle::Italic)
        } else {
            Err(ParseFontStyleErr)
        };
        proof {
            if let Ok(found) = r {
                assert forall|style: FontStyle| name@ == #[trigger] style.name() implies r == Ok::<
                    FontStyle,
                    ParseFontStyleErr,
                >(style) by {
                    lemma_name_injective(style, found);
                }
            }
        }
        r
    }

    /// Computes [`FontStyle::slot`].
    pub fn slot_index(&self) -> (r: u8)
        ensures
            r == self.slot(),
            r < 10,
    {
        match *self {
            FontStyle::Regular => 0,
            FontStyle::Thin => 1,
            FontStyle::ExtraLight => 2,
            FontStyle::Light => 3,
            FontStyle::Medium => 4,
            FontStyle::SemiBold => 5,
            FontStyle::Bold => 6,
            FontStyle::ExtraBold => 7,
            FontStyle::Black => 8,
            FontStyle::Italic => 9,
        }
    }
}

/// Different styles have different names, so a style is found again from
/// its name.
pub proof fn lemma_name_injective(a: FontStyle, b: FontStyle)
    ensures
        a.name() == b.name() <==> a == b,
{
    reveal_strlit("thin");
    reveal_strlit("extra_light");
    reveal_strlit("light");
    reveal_strlit("regular");
    reveal_strlit("medium");
    reveal_strlit("semi_bold");
    reveal_strlit("bold");
    reveal_strlit("extra_bold");
    reveal_strlit("black");
    reveal_strlit("italic");
    if a != b && a.name() == b.name() {
        assert(a.name().len() == b.name().len());
        assert(a.name()[0] == b.name()[0]);
        assert(a.name()[1] == b.name()[1]);
    }
}

/// Different styles have different slots.
pub proof fn lemma_slot_injective(a: FontStyle, b: FontStyle)
    ensures
        a.slot() == b.slot() <==> a == b,
{
}

/// Whether `needle` occurs in `hay` as a run of consecutive code points.
pub open spec fn has_substring(hay: Seq<char>, needle: Seq<char>) -> bool {
    exists|i: int|
        0 <= i <= hay.len() - needle.len() && #[trigger] hay.subrange(i, i + needle.len())
            == needle
}

/// Whether `needle` occurs in `hay`.
pub fn contains_chars(hay: &Vec<char>, needle: &Vec<char>) -> (r: bool)
    ensures
        r == has_substring(hay@, needle@),
{
    let n = hay.len();
    let m = needle.len();
    if m > n {
        return false;
    }
    let mut i: usize = 0;
    while i <= n - m
        invariant
            m <= n,
            n == hay.len(),
            m == needle.len(),
            i <= n - m + 1,
            forall|k: int| 0 <= k < i ==> #[trigger] hay@.subrange(k, k + m) != needle@,
        decreases n - m + 1 - i,
    {
        let mut j: usize = 0;
        while j < m && hay[i + j] == needle[j]
            invariant
                i + m <= n,
                n == hay.len(),
                m == needle.len(),
                j <= m,
                forall|k: int| 0 <= k < j ==> hay@[i + k] == needle@[k],
            decreases m - j,
        {
            j += 1;
        }
        if j == m {
            assert(hay@.subrange(i as int, i + m) =~= needle@);
            return true;
        }
        proof {
            assert(hay@.subrange(i as int, i + m)[j as int] != needle@[j as int]);
        }
        i += 1;
    }
    false
}

/// The style that a face's full name tells, once the name is in lower case.
/// Longer keywords are looked for before the keywords they contain.
pub open spec fn style_of_lowered_name(lowered: Seq<char>) -> Option<FontStyle> {
    if has_substring(lowered, "extralight"@) {
        Some(FontStyle::ExtraLight)
    } else if has_substring(lowered, "light"@) {
        Some(FontStyle::Light)
    } else if has_substring(lowered, "medium"@) {
        Some(FontStyle::Medium)
    } else if has_substring(lowered, "regular"@) {
        Some(FontStyle::Regular)
    } else if has_substring(lowered, "semibold"@) {
        Some(FontStyle::SemiBold)
    } else if has_substring(lowered, "bold"@) {
        Some(FontStyle::Bold)
    } else {
        None
    }
}

/// The style that a full name in lower case tells, if it tells one.
pub fn style_of_lowered(lowered: &str) -> (r: Option<FontStyle>)
    ensures
        r == style_of_lowered_name(lowered@),
{
    let name = chars_of(lowered);
    if contains_chars(&name, &chars_of("extralight")) {
        return Some(FontStyle::ExtraLight);
    }
    if contains_chars(&name, &chars_of("light")) {
        return Some(FontStyle::Light);
    }
    if contains_chars(&name, &chars_of("medium")) {
        return Some(FontStyle::Medium);
    }
    if contains_chars(&name, &chars_of("regular")) {
        return Some(FontStyle::Regular);
    }
    if contains_chars(&name, &chars_of("semibold")) {
        return Some(FontStyle::SemiBold);
    }
    if contains_chars(&name, &chars_of("bold")) {
        return Some(FontStyle::Bold);
    }
    None
}

/// The lower case of a string, as `str::to_lowercase` gives it.
pub uninterp spec fn lowercase(s: Seq<char>) -> Seq<char>;

/// Calls `str::to_lowercase`: the result is the string's Unicode lower case,
/// which this library names and does not spell out.
#[verifier::external_body]
fn to_lowercase(s: &str) -> (r: String)
    ensures
        r@ == lowercase(s@),
{
    s.to_lowercase()
}

/// The style that a face's full name tells, whatever its case.
pub fn font_full_name_to_weight(name: String) -> (r: Option<FontStyle>)
    ensures
        r == style_of_lowered_name(lowercase(name@)),
{
    let lowered = to_lowercase(name.as_str());
    style_of_lowered(lowered.as_str())
}

/// The style of a weight: weights from 100 to 899 go to the style of their
/// hundred, every other weight to the heaviest style.
pub open spec fn style_of_weight(weight: int) -> FontStyle {
    if weight < 100 || weight >= 900 {
        FontStyle::Black
    } else {
        let hundred = weight / 100;
        if hundred == 1 {
            FontStyle::Thin
        } else if hundred == 2 {
            FontStyle::ExtraLight
        } else if hundred == 3 {
            FontStyle::Light
        } else if hundred == 4 {
            FontStyle::Regular
        } else if hundred == 5 {
            FontStyle::Medium
        } else if hundred == 6 {
            FontStyle::SemiBold
        } else if hundred == 7 {
            FontStyle::Bold
        } else {
            FontStyle::ExtraBold
        }
    }
}

/// The style whose nominal weight lies at or next below `weight`.
pub fn approximate_font_weight(weight: i32) -> (r: FontStyle)
    ensures
        r == style_of_weight(weight as int),
{
    if weight >= 100 && weight < 200 {
        return FontStyle::Thin;
    }
    if weight >= 200 && weight < 300 {
        return FontStyle::ExtraLight;
    }
    if weight >= 300 && weight < 400 {
        return FontStyle::Light;
    }
    if weight >= 400 && weight < 500 {
        return FontStyle::Regular;
    }
    if weight >= 500 && weight < 600 {
        return FontStyle::Medium;
    }
    if weight >= 600 && weight < 700 {
        return FontStyle::SemiBold;
    }
    if weight >= 700 && weight < 800 {
        return FontStyle::Bold;
    }
    if weight >= 800 && weight < 900 {
        return FontStyle::ExtraBold;
    }
    FontStyle::Black
}

/// The style under which a face is kept: what its full name tells; else, for
/// an upright face, what its weight tells; for an italic face, italic. An
/// oblique face whose name tells nothing is not kept.
pub open spec fn style_of_face(lowered_name: Seq<char>, slant: FaceSlant, weight: int) -> Option<
    FontStyle,
> {
    match style_of_lowered_name(lowered_name) {
        Some(style) => Some(style),
        None => match slant {
            FaceSlant::Normal => Some(style_of_weight(weight)),
            FaceSlant::Italic => Some(FontStyle::Italic),
            FaceSlant::Oblique => None,
        },
    }
}

/// Classifies a face by its full name, slant and weight.
pub fn classify_face(full_name: &str, slant: FaceSlant, weight: i32) -> (r: Option<FontStyle>)
    ensures
        r == style_of_face(lowercase(full_name@), slant, weight as int),
{
    let lowered = to_lowercase(full_name);
    match style_of_lowered(lowered.as_str()) {
        Some(style) => Some(style),
        None => match slant {
            FaceSlant::Normal => Some(approximate_font_weight(weight)),
            FaceSlant::Italic => Some(FontStyle::Italic),
            FaceSlant::Oblique => None,
        },
    }
}


/// One OpenType feature as the shaping engine takes it: the tag, the value
/// and the range of the text that it applies to.
#[derive(Debug, Clone, Copy, PartialEq, Eq, Structural)]
pub struct FeatureSetting {
    pub tag: u32,
    pub value: u32,
    pub start: u32,
    pub end: u32,
}

/// The feature that a feature string stands for, as `rustybuzz::Feature`
/// parses it; `None` for a string that it refuses.
pub uninterp spec fn feature_of(name: Seq<char>) -> Option<FeatureSetting>;

/// Calls `<rustybuzz::Feature as FromStr>::from_str`: the result is the
/// parsed feature, field for field, or `None` where the parser refuses the
/// string.
#[verifier::external_body]
fn parse_feature(name: &str) -> (r: Option<FeatureSetting>)
    ensures
        r == feature_of(name@),
{
    match name.parse::<rustybuzz::Feature>() {
        Ok(f) => Some(FeatureSetting { tag: f.tag.0, value: f.value, start: f.start, end: f.end }),
        Err(_) => None,
    }
}

/// A feature and the string that it was switched on with.
#[derive(Debug)]
pub struct NamedFeature {
    pub name: String,
    pub setting: FeatureSetting,
}

/// A feature and its string, as values.
pub struct FeatureEntry {
    pub name: Seq<char>,
    pub setting: FeatureSetting,
}

impl View for NamedFeature {
    type V = FeatureEntry;

    open spec fn view(&self) -> FeatureEntry {
        FeatureEntry { name: self.name@, setting: self.setting }
    }
}

/// The features of a list, as values.
pub open spec fn entries_of(features: Seq<NamedFeature>) -> Seq<FeatureEntry> {
    Seq::new(features.len(), |i: int| features[i]@)
}

/// The settings of a list of features, in order.
pub open spec fn settings_of(features: Seq<FeatureEntry>) -> Seq<FeatureSetting> {
    Seq::new(features.len(), |i: int| features[i].setting)
}

/// Whether a feature was switched on with the string `name`.
pub open spec fn has_feature_named(features: Seq<FeatureEntry>, name: Seq<char>) -> bool {
    exists|i: int| 0 <= i < features.len() && (#[trigger] features[i]).name == name
}

/// The features without those that were switched on with `name`; the others
/// keep their order.
pub open spec fn without_feature(features: Seq<FeatureEntry>, name: Seq<char>) -> Seq<
    FeatureEntry,
>
    decreases features.len(),
{
    if features.len() == 0 {
        features
    } else if features.last().name == name {
        without_feature(features.drop_last(), name)
    } else {
        without_feature(features.drop_last(), name).push(features.last())
    }
}

/// The greatest value of a feature that the shaping engine takes.
pub const MAX_FEATURE_VALUE: u32 = 0xFFFF;

/// Whether a feature string can be switched on: it parses, and its value is
/// one that the shaping engine takes.
pub open spec fn feature_accepted(name: Seq<char>) -> bool {
    feature_of(name) matches Some(setting) && setting.value <= MAX_FEATURE_VALUE
}

/// Whether the value of every feature is one that the shaping engine takes.
pub open spec fn features_bounded(features: Seq<FeatureEntry>) -> bool {
    forall|i: int| 0 <= i < features.len() ==> (#[trigger] features[i]).setting.value
        <= MAX_FEATURE_VALUE
}

/// The features after `name` is switched on: where the string is accepted,
/// its feature comes last and replaces an earlier one of the same string;
/// where it is not, nothing changes.
pub open spec fn with_feature(features: Seq<FeatureEntry>, name: Seq<char>) -> Seq<FeatureEntry> {
    if feature_accepted(name) {
        without_feature(features, name).push(FeatureEntry { name, setting: feature_of(name)->0 })
    } else {
        features
    }
}

/// The features that a new configuration switches on: kerning, standard and
/// contextual ligatures, and contextual alternates.
pub open spec fn default_features() -> Seq<FeatureEntry> {
    with_feature(
        with_feature(
            with_feature(with_feature(Seq::<FeatureEntry>::empty(), "kern"@), "liga"@),
            "calt"@,
        ),
        "clig"@,
    )
}

/// After a string is removed, no feature is switched on with it, and every
/// other string is switched on as before.
pub proof fn lemma_without_feature(features: Seq<FeatureEntry>, name: Seq<char>, other: Seq<char>)
    ensures
        !has_feature_named(without_feature(features, name), name),
        other != name ==> has_feature_named(without_feature(features, name), other)
            == has_feature_named(features, other),
        without_feature(features, name).len() <= features.len(),
    decreases features.len(),
{
    let out = without_feature(features, name);
    if features.len() > 0 {
        let rest = features.drop_last();
        lemma_without_feature(rest, name, other);
        let kept = without_feature(rest, name);
        if has_feature_named(out, name) {
            let i = choose|i: int| 0 <= i < out.len() && (#[trigger] out[i]).name == name;
            if features.last().name != name && i < kept.len() {
                assert(kept[i] == out[i]);
            }
            assert(false);
        }
        if other != name {
            if has_feature_named(features, other) {
                let i = choose|i: int|
                    0 <= i < features.len() && (#[trigger] features[i]).name == other;
                if i < rest.len() {
                    assert(rest[i] == features[i]);
                    let j = choose|j: int| 0 <= j < kept.len() && (#[trigger] kept[j]).name == other;
                    if features.last().name != name {
                        assert(out[j] == kept[j]);
                    }
                } else {
                    assert(out[out.len() - 1].name == other);
                }
                assert(has_feature_named(out, other));
            }
            if has_feature_named(out, other) {
                let i = choose|i: int| 0 <= i < out.len() && (#[trigger] out[i]).name == other;
                if i < kept.len() {
                    if features.last().name != name {
                        assert(kept[i] == out[i]);
                    }
                    let j = choose|j: int| 0 <= j < rest.len() && (#[trigger] rest[j]).name == other;
                    assert(features[j] == rest[j]);
                } else {
                    assert(features[features.len() - 1].name == other);
                }
                assert(has_feature_named(features, other));
            }
        }
    }
}

/// One face of a family: its metrics, the bytes of its font file and the
/// outlines of its glyphs.
pub struct Face {
    pub metrics: FaceMetrics,
    pub data: Vec<u8>,
    pub outlines: GlyphOutlines,
}

/// A face as it is found in a family, before it is classified.
pub struct FaceSource {
    pub full_name: String,
    pub slant: FaceSlant,
    pub weight: i32,
    pub face: Face,
}

/// A face and the style under which it is kept.
pub struct StyledFace {
    pub style: FontStyle,
    pub face: Face,
}

/// Index of the face that serves `style`: the last one kept under that
/// style; `-1` where there is none.
pub open spec fn face_index(faces: Seq<StyledFace>, style: FontStyle) -> int
    decreases faces.len(),
{
    if faces.len() == 0 {
        -1
    } else if faces.last().style == style {
        faces.len() - 1
    } else {
        face_index(faces.drop_last(), style)
    }
}

/// The style whose face serves a requested style: the style itself where the
/// family has it, else the regular style, else none.
pub open spec fn resolve_style(faces: Seq<StyledFace>, style: FontStyle) -> Option<FontStyle> {
    if face_index(faces, style) >= 0 {
        Some(style)
    } else if face_index(faces, FontStyle::Regular) >= 0 {
        Some(FontStyle::Regular)
    } else {
        None
    }
}

/// The faces of a family that are kept, each under its style, in the
/// family's order.
pub open spec fn classified(family: Seq<FaceSource>) -> Seq<StyledFace>
    decreases family.len(),
{
    if family.len() == 0 {
        Seq::<StyledFace>::empty()
    } else {
        let rest = classified(family.drop_last());
        let last = family.last();
        match style_of_face(lowercase(last.full_name@), last.slant, last.weight as int) {
            Some(style) => rest.push(StyledFace { style, face: last.face }),
            None => rest,
        }
    }
}

/// The index of a face lies within the family, and the face at it is of the
/// style.
pub proof fn lemma_face_index(faces: Seq<StyledFace>, style: FontStyle)
    ensures
        -1 <= face_index(faces, style) < faces.len(),
        face_index(faces, style) >= 0 ==> faces[face_index(faces, style)].style == style,
        face_index(faces, style) < 0 ==> forall|i: int|
            0 <= i < faces.len() ==> (#[trigger] faces[i]).style != style,
    decreases faces.len(),
{
    if faces.len() > 0 && faces.last().style != style {
        let rest = faces.drop_last();
        lemma_face_index(rest, style);
        if face_index(faces, style) < 0 {
            assert forall|i: int| 0 <= i < faces.len() implies (#[trigger] faces[i]).style
                != style by {
                if i < rest.len() {
                    assert(rest[i] == faces[i]);
                }
            }
        }
    }
}

/// What a font configuration holds.
pub struct FontConfigView {
    pub font_name: Seq<char>,
    pub size: u32,
    pub features: Seq<FeatureEntry>,
    pub faces: Seq<StyledFace>,
    pub letter_space: i32,
    pub fill_color: Seq<char>,
    pub color: Seq<char>,
    pub debug: bool,
}

/// The faces of one family at one size, with the features, the letter
/// spacing and the colours that a text is set with.
pub struct FontConfig {
    font_name: String,
    size: u32,
    features: Vec<NamedFeature>,
    faces: Vec<StyledFace>,
    letter_space: i32,
    fill_color: String,
    color: String,
    debug: bool,
}

impl View for FontConfig {
    type V = FontConfigView;

    closed spec fn view(&self) -> FontConfigView {
        FontConfigView {
            font_name: self.font_name@,
            size: self.size,
            features: entries_of(self.features@),
            faces: self.faces@,
            letter_space: self.letter_space,
            fill_color: self.fill_color@,
            color: self.color@,
            debug: self.debug,
        }
    }
}

impl FontConfig {
    #[verifier::type_invariant]
    spec fn inv(self) -> bool {
        features_bounded(entries_of(self.features@))
    }

    /// A configuration of the given family. Each face is kept under the
    /// style that its name, slant and weight tell; a later face of one style
    /// is served in place of an earlier one. The default features are switched
    /// on and the letter spacing is zero.
    pub fn new(
        font_name: String,
        size: u32,
        fill_color: String,
        color: String,
        debug: bool,
        family: Vec<FaceSource>,
    ) -> (config: FontConfig)
        ensures
            config@ == (FontConfigView {
                font_name: font_name@,
                size,
                features: default_features(),
                faces: classified(family@),
                letter_space: 0,
                fill_color: fill_color@,
                color: color@,
                debug,
            }),
    {
        let ghost sources = family@;
        let mut faces: Vec<StyledFace> = Vec::new();
        for source in it: family
            invariant
                it.seq() == sources,
                faces@ == classified(sources.take(it.index() as int)),
        {
            let ghost before = sources.take(it.index() as int);
            proof {
                assert(sources.take(it.index() + 1).drop_last() =~= before);
            }
            match classify_face(source.full_name.as_str(), source.slant, source.weight) {
                Some(style) => {
                    faces.push(StyledFace { style, face: source.face });
                },
                None => {},
            }
        }
        proof {
            assert(sources.take(sources.len() as int) =~= sources);
        }
        let mut config = FontConfig {
            font_name,
            size,
            features: Vec::new(),
            faces,
            letter_space: 0,
            fill_color,
            color,
            debug,
        };
        assert(config@.features =~= Seq::<FeatureEntry>::empty());
        config.add_feature("kern");
        config.add_feature("liga");
        config.add_feature("calt");
        config.add_feature("clig");
        config
    }

    /// Whether a feature is switched on with the string `name`.
    pub fn has_feature(&self, name: &str) -> (r: bool)
        ensures
            r == has_feature_named(self@.features, name@),
    {
        let key: String = name.to_owned();
        let mut i: usize = 0;
        while i < self.features.len()
            invariant
                i <= self.features@.len(),
                key@ == name@,
                forall|k: int| 0 <= k < i ==> (#[trigger] self@.features[k]).name != name@,
            decreases self.features.len() - i,
        {
            if self.features[i].name == key {
                assert(self@.features[i as int].name == name@);
                return true;
            }
            i += 1;
        }
        false
    }

    /// Switches a feature on. Returns whether the string is a feature string
    /// with a value of at most [`MAX_FEATURE_VALUE`]; where it is not, nothing
    /// changes.
    pub fn add_feature(&mut self, name: &str) -> (added: bool)
        ensures
            added == feature_accepted(name@),
            final(self)@ == (FontConfigView {
                features: with_feature(old(self)@.features, name@),
                ..old(self)@
            }),
    {
        match parse_feature(name) {
            Some(setting) => {
                if setting.value > MAX_FEATURE_VALUE {
                    return false;
                }
                self.remove_feature(name);
                proof {
                    use_type_invariant(&*self);
                }
                let ghost before = self@.features;
                let mut features: Vec<NamedFeature> = Vec::new();
                core::mem::swap(&mut self.features, &mut features);
                features.push(NamedFeature { name: name.to_owned(), setting });
                proof {
                    assert(entries_of(features@) =~= before.push(
                        FeatureEntry { name: name@, setting },
                    ));
                }
                self.features = features;
                true
            },
            None => false,
        }
    }

    /// Switches off the feature that was switched on with `name`, if any.
    pub fn remove_feature(&mut self, name: &str)
        ensures
            final(self)@ == (FontConfigView {
                features: without_feature(old(self)@.features, name@),
                ..old(self)@
            }),
    {
        proof {
            use_type_invariant(&*self);
        }
        let key: String = name.to_owned();
        let ghost entries = self@.features;
        let mut taken: Vec<NamedFeature> = Vec::new();
        core::mem::swap(&mut self.features, &mut taken);
        let ghost all = taken@;
        let mut kept: Vec<NamedFeature> = Vec::new();
        for feature in it: taken
            invariant
                it.seq() == all,
                key@ == name@,
                all.len() == entries.len(),
                forall|k: int| 0 <= k < all.len() ==> (#[trigger] all[k])@ == entries[k],
                features_bounded(entries),
                features_bounded(entries_of(kept@)),
                entries_of(kept@) == without_feature(entries.take(it.index() as int), name@),
        {
            let ghost before = entries_of(kept@);
            proof {
                assert(entries.take(it.index() + 1).drop_last() =~= entries.take(
                    it.index() as int,
                ));
                assert(entries.take(it.index() + 1).last() == feature@);
            }
            if feature.name != key {
                kept.push(feature);
                proof {
                    assert(entries_of(kept@) =~= before.push(feature@));
                    assert(feature@ == entries[it.index() as int]);
                }
            }
        }
        proof {
            assert(entries.take(entries.len() as int) =~= entries);
        }
        self.features = kept;
    }

    /// The features that are switched on, in the order in which the shaping
    /// engine gets them. Each has a value that the engine takes.
    pub fn get_features(&self) -> (features: &Vec<NamedFeature>)
        ensures
            entries_of(features@) == self@.features,
            features_bounded(self@.features),
    {
        proof {
            use_type_invariant(self);
        }
        &self.features
    }

    /// The face that serves the regular style.
    pub fn get_regular_font(&self) -> (face: Option<&Face>)
        ensures
            match face {
                Some(f) => face_index(self@.faces, FontStyle::Regular) >= 0 && *f
                    == self@.faces[face_index(self@.faces, FontStyle::Regular)].face,
                None => face_index(self@.faces, FontStyle::Regular) < 0,
            },
    {
        self.get_font_by_style(&FontStyle::Regular)
    }

    /// The face that serves `style`, without fallback.
    pub fn get_font_by_style(&self, style: &FontStyle) -> (face: Option<&Face>)
        ensures
            match face {
                Some(f) => face_index(self@.faces, *style) >= 0 && *f == self@.faces[face_index(
                    self@.faces,
                    *style,
                )].face,
                None => face_index(self@.faces, *style) < 0,
            },
    {
        let mut i: usize = self.faces.len();
        proof {
            assert(self.faces@.take(i as int) =~= self.faces@);
        }
        while i > 0
            invariant
                i <= self.faces@.len(),
                face_index(self.faces@, *style) == face_index(self.faces@.take(i as int), *style),
            decreases i,
        {
            if self.faces[i - 1].style == *style {
                assert(self.faces@.take(i as int).last() == self.faces@[i - 1]);
                return Some(&self.faces[i - 1].face);
            }
            proof {
                assert(self.faces@.take(i as int).drop_last() =~= self.faces@.take(i - 1));
            }
            i -= 1;
        }
        proof {
            assert(self.faces@.take(0) =~= Seq::<StyledFace>::empty());
        }
        None
    }

    /// The face that a text of the requested style is set in, and the style
    /// that it is kept under: the style's own face, else the regular face.
    pub fn resolve_face(&self, style: FontStyle) -> (r: Option<(FontStyle, &Face)>)
        ensures
            match r {
                Some((resolved, face)) => resolve_style(self@.faces, style) == Some(resolved)
                    && *face == self@.faces[face_index(self@.faces, resolved)].face,
                None => resolve_style(self@.faces, style) is None,
            },
    {
        match self.get_font_by_style(&style) {
            Some(face) => Some((style, face)),
            None => match self.get_font_by_style(&FontStyle::Regular) {
                Some(face) => Some((FontStyle::Regular, face)),
                None => None,
            },
        }
    }

    /// Sets the letter spacing, in thousandths of an em.
    pub fn set_letter_space(&mut self, space: i32) -> (config: &mut FontConfig)
        ensures
            config@ == (FontConfigView { letter_space: space, ..old(self)@ }),
            *final(self) == *final(config),
    {
        proof {
            use_type_invariant(&*self);
        }
        self.letter_space = space;
        self
    }

    /// The letter spacing, in thousandths of an em.
    pub fn get_letter_space(&self) -> (space: i32)
        ensures
            space == self@.letter_space,
    {
        self.letter_space
    }

    /// The family's name.
    pub fn get_font_name(&self) -> (name: &String)
        ensures
            name@ == self@.font_name,
    {
        &self.font_name
    }

    /// The stroke colour.
    pub fn get_color(&self) -> (color: &String)
        ensures
            color@ == self@.color,
    {
        &self.color
    }

    /// The fill colour.
    pub fn get_fill_color(&self) -> (color: &String)
        ensures
            color@ == self@.fill_color,
    {
        &self.fill_color
    }

    /// The size in pixels, which is also the height of a line.
    pub fn get_size(&self) -> (size: u32)
        ensures
            size == self@.size,
    {
        self.size
    }

    /// Whether the caller asked for a trace of its work.
    pub fn get_debug(&self) -> (debug: bool)
        ensures
            debug == self@.debug,
    {
        self.debug
    }
}

} // verus!
