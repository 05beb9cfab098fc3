//! Fonts, justification and text effects.
use crate::error::ParseError;
use crate::expect::{expect_named_head, expect_str_end, spec_named_head, spec_str_end};
use crate::geometry::{spec_size, Size};
use crate::keyed::{
    check_required, convert_opt, entries_view, flag_set, has_flag, lemma_required_present, rule,
    scan, scan_keyed, slot, slot_of, spec_required, tail, tail_of, FieldRule, Multiplicity,
};
use crate::sexpr::SExpr;
use crate::style::{length_nm, spec_length_nm};
use vstd::prelude::*;

verus! {

/// A font `(font [(face <name>)] (size <h> <w>) [(thickness <mm>)] [bold] [italic]
/// [(line_spacing <mm>)])`.
#[derive(Clone, Debug, PartialEq)]
pub struct Font {
    /// Font family name.
    pub face: Option<String>,
    /// Character size.
    pub size: Size,
    /// Stroke thickness in nanometres.
    pub thickness: Option<i64>,
    /// Boldface.
    pub bold: bool,
    /// Italic.
    pub italic: bool,
    /// Line spacing in nanometres.
    pub line_spacing: Option<i64>,
}

/// Horizontal justification.
#[derive(Clone, Copy, Debug, PartialEq, Eq, Structural)]
pub enum HorizJustify {
    Left,
    Center,
    Right,
}

/// Vertical justification.
#[derive(Clone, Copy, Debug, PartialEq, Eq, Structural)]
pub enum VertJustify {
    Top,
    Center,
    Bottom,
}

/// Text justification `(justify [left|right] [top|bottom] [mirror])`.
#[derive(Clone, Copy, Debug, PartialEq, Eq, Structural)]
pub struct TextJustify {
    /// Horizontal justification; centred when not given.
    pub horiz_justify: HorizJustify,
    /// Vertical justification; centred when not given.
    pub vert_justify: VertJustify,
    /// Whether the text is mirrored.
    pub mirror: bool,
}

/// Text effects `(effects [(font ...)] [(justify ...)] [hide])`.
#[derive(Clone, Debug, PartialEq)]
pub struct TextEffects {
    /// Text font.
    pub font: Option<Font>,
    /// Text justification.
    pub justify: Option<TextJustify>,
    /// Whether the text is hidden.
    pub hide: bool,
}

impl HorizJustify {
    /// Whether this is the default justification (centred).
    pub fn is_default(&self) -> (r: bool)
        ensures
            r == (*self == HorizJustify::Center),
    {
        matches!(self, HorizJustify::Center)
    }
}

impl VertJustify {
    /// Whether this is the default justification (centred).
    pub fn is_default(&self) -> (r: bool)
        ensures
            r == (*self == VertJustify::Center),
    {
        matches!(self, VertJustify::Center)
    }
}

/// The string that closes a keyed element.
pub open spec fn spec_key_str(el: SExpr) -> Result<String, ParseError> {
    spec_str_end(tail_of(el))
}

/// Reads the string that closes the keyed element `el`.
pub fn key_str(el: &SExpr) -> (r: Result<String, ParseError>)
    ensures
        r == spec_key_str(*el),
{
    expect_str_end(tail(el))
}

/// The fields of a font.
pub open spec fn font_rules() -> Seq<FieldRule> {
    seq![
        rule("face", "face", Multiplicity::Optional),
        rule("size", "size", Multiplicity::Required),
        rule("thickness", "thickness", Multiplicity::Optional),
        rule("bold", "bold", Multiplicity::Flag),
        rule("italic", "italic", Multiplicity::Flag),
        rule("line_spacing", "line_spacing", Multiplicity::Optional),
    ]
}

fn font_rules_exec() -> (r: Vec<FieldRule>)
    ensures
        r@ == font_rules(),
{
    let r = vec![
        FieldRule { key: "face", name: "face", multiplicity: Multiplicity::Optional },
        FieldRule { key: "size", name: "size", multiplicity: Multiplicity::Required },
        FieldRule { key: "thickness", name: "thickness", multiplicity: Multiplicity::Optional },
        FieldRule { key: "bold", name: "bold", multiplicity: Multiplicity::Flag },
        FieldRule { key: "italic", name: "italic", multiplicity: Multiplicity::Flag },
        FieldRule { key: "line_spacing", name: "line_spacing", multiplicity: Multiplicity::Optional },
    ];
    assert(r@ =~= font_rules());
    r
}

/// The decoding of a font.
pub open spec fn spec_font(e: SExpr) -> Result<Font, ParseError> {
    match spec_named_head(e, "font") {
        Err(err) => Err(err),
        Ok(rest) => match scan("font", font_rules(), rest) {
            Err(err) => Err(err),
            Ok(es) => match convert_opt(slot(es, 0), |x| spec_key_str(x)) {
                Err(err) => Err(err),
                Ok(face) => match convert_opt(slot(es, 1), |x| spec_size(x)) {
                    Err(err) => Err(err),
                    Ok(size) => match convert_opt(slot(es, 2), |x| spec_length_nm(x)) {
                        Err(err) => Err(err),
                        Ok(thickness) => match convert_opt(slot(es, 5), |x| spec_length_nm(x)) {
                            Err(err) => Err(err),
                            Ok(line_spacing) => match spec_required("font", font_rules(), es, e) {
                                Err(err) => Err(err),
                                Ok(_) => Ok(
                                    Font {
                                        face,
                                        size: size.unwrap(),
                                        thickness,
                                        bold: flag_set(es, 3),
                                        italic: flag_set(es, 4),
                                        line_spacing,
                                    },
                                ),
                            },
                        },
                    },
                },
            },
        },
    }
}

impl Font {
    /// Decodes a font; its elements may come in any order, and `size` is required.
    pub fn try_from(e: &SExpr) -> (r: Result<Font, ParseError>)
        ensures
            r == spec_font(*e),
    {
        let rest = expect_named_head(e, "font")?;
        let rules = font_rules_exec();
        let entries = scan_keyed("font", &rules, rest)?;
        let face = match slot_of(&entries, 0) {
            Some(el) => Some(key_str(el)?),
            None => None,
        };
        let size = match slot_of(&entries, 1) {
            Some(el) => Some(Size::try_from(el)?),
            None => None,
        };
        let thickness = match slot_of(&entries, 2) {
            Some(el) => Some(length_nm(el)?),
            None => None,
        };
        let line_spacing = match slot_of(&entries, 5) {
            Some(el) => Some(length_nm(el)?),
            None => None,
        };
        check_required("font", &rules, &entries, e)?;
        proof {
            lemma_required_present(rules@, entries_view(entries@), 1);
        }
        let size = match size {
            Some(s) => s,
            None => vstd::pervasive::unreached(),
        };
        let bold = has_flag(&entries, 3);
        let italic = has_flag(&entries, 4);
        Ok(Font { face, size, thickness, bold, italic, line_spacing })
    }
}

/// The fields of a justification.
pub open spec fn justify_rules() -> Seq<FieldRule> {
    seq![
        rule("left", "left", Multiplicity::Flag),
        rule("right", "right", Multiplicity::Flag),
        rule("top", "top", Multiplicity::Flag),
        rule("bottom", "bottom", Multiplicity::Flag),
        rule("mirror", "mirror", Multiplicity::Flag),
    ]
}

fn justify_rules_exec() -> (r: Vec<FieldRule>)
    ensures
        r@ == justify_rules(),
{
    let r = vec![
        FieldRule { key: "left", name: "left", multiplicity: Multiplicity::Flag },
        FieldRule { key: "right", name: "right", multiplicity: Multiplicity::Flag },
        FieldRule { key: "top", name: "top", multiplicity: Multiplicity::Flag },
        FieldRule { key: "bottom", name: "bottom", multiplicity: Multiplicity::Flag },
        FieldRule { key: "mirror", name: "mirror", multiplicity: Multiplicity::Flag },
    ];
    assert(r@ =~= justify_rules());
    r
}

/// The decoding of a justification. Where both sides of an axis are given, `right` and
/// `bottom` win.
pub open spec fn spec_justify(e: SExpr) -> Result<TextJustify, ParseError> {
    match spec_named_head(e, "justify") {
        Err(err) => Err(err),
        Ok(rest) => match scan("justify", justify_rules(), rest) {
            Err(err) => Err(err),
            Ok(es) => Ok(
                TextJustify {
                    horiz_justify: if flag_set(es, 1) {
                        HorizJustify::Right
                    } else if flag_set(es, 0) {
                        HorizJustify::Left
                    } else {
                        HorizJustify::Center
                    },
                    vert_justify: if flag_set(es, 3) {
                        VertJustify::Bottom
                    } else if flag_set(es, 2) {
                        VertJustify::Top
                    } else {
                        VertJustify::Center
                    },
                    mirror: flag_set(es, 4),
                },
            ),
        },
    }
}

impl TextJustify {
    /// Decodes `(justify [left|right] [top|bottom] [mirror])`.
    pub fn try_from(e: &SExpr) -> (r: Result<TextJustify, ParseError>)
        ensures
            r == spec_justify(*e),
    {
        let rest = expect_named_head(e, "justify")?;
        let rules = justify_rules_exec();
        let entries = scan_keyed("justify", &rules, rest)?;
        let horiz_justify = if has_flag(&entries, 1) {
            HorizJustify::Right
        } else if has_flag(&entries, 0) {
            HorizJustify::Left
        } else {
            HorizJustify::Center
        };
        let vert_justify = if has_flag(&entries, 3) {
            VertJustify::Bottom
        } else if has_flag(&entries, 2) {
            VertJustify::Top
        } else {
            VertJustify::Center
        };
        let mirror = has_flag(&entries, 4);
        Ok(TextJustify { horiz_justify, vert_justify, mirror })
    }
}

/// The fields of text effects.
pub open spec fn effects_rules() -> Seq<FieldRule> {
    seq![
        rule("font", "font", Multiplicity::Optional),
        rule("justify", "justify", Multiplicity::Optional),
        rule("hide", "hide", Multiplicity::Flag),
    ]
}

fn effects_rules_exec() -> (r: Vec<FieldRule>)
    ensures
        r@ == effects_rules(),
{
    let r = vec![
        FieldRule { key: "font", name: "font", multiplicity: Multiplicity::Optional },
        FieldRule { key: "justify", name: "justify", multiplicity: Multiplicity::Optional },
        FieldRule { key: "hide", name: "hide", multiplicity: Multiplicity::Flag },
    ];
    assert(r@ =~= effects_rules());
    r
}

/// The decoding of text effects.
pub open spec fn spec_effects(e: SExpr) -> Result<TextEffects, ParseError> {
    match spec_named_head(e, "effects") {
        Err(err) => Err(err),
        Ok(rest) => match scan("effects", effects_rules(), rest) {
            Err(err) => Err(err),
            Ok(es) => match convert_opt(slot(es, 0), |x| spec_font(x)) {
                Err(err) => Err(err),
                Ok(font) => match convert_opt(slot(es, 1), |x| spec_justify(x)) {
                    Err(err) => Err(err),
                    Ok(justify) => Ok(TextEffects { font, justify, hide: flag_set(es, 2) }),
                },
            },
        },
    }
}

impl TextEffects {
    /// Decodes `(effects [(font ...)] [(justify ...)] [hide])`.
    pub fn try_from(e: &SExpr) -> (r: Result<TextEffects, ParseError>)
        ensures
            r == spec_effects(*e),
    {
        let rest = expect_named_head(e, "effects")?;
        let rules = effects_rules_exec();
        let entries = scan_keyed("effects", &rules, rest)?;
        let font = match slot_of(&entries, 0) {
            Some(el) => Some(Font::try_from(el)?),
            None => None,
        };
        let justify = match slot_of(&entries, 1) {
            Some(el) => Some(TextJustify::try_from(el)?),
            None => None,
        };
        let hide = has_flag(&entries, 2);
        Ok(TextEffects { font, justify, hide })
    }
}

} // verus!
