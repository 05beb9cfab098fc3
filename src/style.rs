//! Stroke and fill styles of graphical items.
use crate::color::{spec_color, Color};
use crate::error::ParseError;
use crate::expect::{
    expect_float_end, expect_named_head, expect_symbol_end, spec_float_end, spec_named_head,
    spec_symbol_end, text_is,
};
use crate::keyed::{
    convert_opt, rule, scan, scan_keyed, slot, slot_of, tail, tail_of, FieldRule,
    Multiplicity,
};
use crate::sexpr::SExpr;
use crate::units::{mm_to_nm, spec_mm_to_nm};
use vstd::prelude::*;

verus! {

/// How a closed shape is filled.
#[derive(Clone, Copy, Debug, PartialEq, Eq, Structural)]
pub enum FillType {
    /// No fill.
    NoFill,
    /// Filled with the outline colour.
    Outline,
    /// Filled with the theme's background colour.
    Background,
}

/// A fill definition `(fill (type <fill_type>))`.
#[derive(Clone, Copy, Debug, PartialEq, Eq, Structural)]
pub struct Fill {
    /// The fill type; `None` when not given.
    pub fill_type: FillType,
}

/// The style of a stroked line.
#[derive(Clone, Copy, Debug, PartialEq, Eq, Structural)]
pub enum LineStyle {
    Dash,
    DashDot,
    DashDotDot,
    Dot,
    Default,
    Solid,
}

/// A stroke definition `(stroke (width <mm>) (type <style>) (color ...))`, every part optional.
#[derive(Clone, Copy, Debug, PartialEq, Eq, Structural)]
pub struct Stroke {
    /// Width in nanometres.
    pub width: Option<i64>,
    /// Line style.
    pub line_style: Option<LineStyle>,
    /// Colour.
    pub color: Option<Color>,
}

/// The fill type named `s`.
pub open spec fn fill_type_named(s: Seq<char>) -> Option<FillType> {
    if s == "none"@ {
        Some(FillType::NoFill)
    } else if s == "outline"@ {
        Some(FillType::Outline)
    } else if s == "background"@ {
        Some(FillType::Background)
    } else {
        None
    }
}

/// The accepted fill type symbols.
pub const FILL_TYPE_SYMBOLS: &'static str = "none, outline, background";

/// The decoding of `(type <fill_type>)`.
pub open spec fn spec_fill_type(e: SExpr) -> Result<FillType, ParseError> {
    match spec_named_head(e, "type") {
        Err(err) => Err(err),
        Ok(rest) => match spec_symbol_end(rest) {
            Err(err) => Err(err),
            Ok(s) => match fill_type_named(s@) {
                Some(t) => Ok(t),
                None => Err(ParseError::ExpectedEnumSymbol(SExpr::Symbol(s), FILL_TYPE_SYMBOLS)),
            },
        },
    }
}

impl FillType {
    /// Decodes `(type <fill_type>)`.
    pub fn try_from(e: &SExpr) -> (r: Result<FillType, ParseError>)
        ensures
            r == spec_fill_type(*e),
    {
        let rest = expect_named_head(e, "type")?;
        let s = expect_symbol_end(rest)?;
        if text_is(&s, "none") {
            Ok(FillType::NoFill)
        } else if text_is(&s, "outline") {
            Ok(FillType::Outline)
        } else if text_is(&s, "background") {
            Ok(FillType::Background)
        } else {
            Err(ParseError::ExpectedEnumSymbol(SExpr::Symbol(s), FILL_TYPE_SYMBOLS))
        }
    }
}

/// The fields of a fill.
pub open spec fn fill_rules() -> Seq<FieldRule> {
    seq![rule("type", "type", Multiplicity::Optional)]
}

fn fill_rules_exec() -> (r: Vec<FieldRule>)
    ensures
        r@ == fill_rules(),
{
    let r = vec![FieldRule { key: "type", name: "type", multiplicity: Multiplicity::Optional }];
    assert(r@ =~= fill_rules());
    r
}

/// The decoding of `(fill (type <fill_type>))`.
pub open spec fn spec_fill(e: SExpr) -> Result<Fill, ParseError> {
    match spec_named_head(e, "fill") {
        Err(err) => Err(err),
        Ok(rest) => match scan("fill", fill_rules(), rest) {
            Err(err) => Err(err),
            Ok(es) => match convert_opt(slot(es, 0), |x| spec_fill_type(x)) {
                Err(err) => Err(err),
                Ok(t) => Ok(
                    Fill {
                        fill_type: match t {
                            Some(t) => t,
                            None => FillType::NoFill,
                        },
                    },
                ),
            },
        },
    }
}

impl Fill {
    /// Decodes `(fill (type <fill_type>))`.
    pub fn try_from(e: &SExpr) -> (r: Result<Fill, ParseError>)
        ensures
            r == spec_fill(*e),
    {
        let rest = expect_named_head(e, "fill")?;
        let rules = fill_rules_exec();
        let entries = scan_keyed("fill", &rules, rest)?;
        let fill_type = match slot_of(&entries, 0) {
            Some(el) => FillType::try_from(el)?,
            None => FillType::NoFill,
        };
        Ok(Fill { fill_type })
    }
}

/// The line style named `s`.
pub open spec fn line_style_named(s: Seq<char>) -> Option<LineStyle> {
    if s == "dash"@ {
        Some(LineStyle::Dash)
    } else if s == "dash_dot"@ {
        Some(LineStyle::DashDot)
    } else if s == "dash_dot_dot"@ {
        Some(LineStyle::DashDotDot)
    } else if s == "dot"@ {
        Some(LineStyle::Dot)
    } else if s == "default"@ {
        Some(LineStyle::Default)
    } else if s == "solid"@ {
        Some(LineStyle::Solid)
    } else {
        None
    }
}

/// The accepted line style symbols.
pub const LINE_STYLE_SYMBOLS: &'static str = "dash, dash_dot, dash_dot_dot, dot, default, solid";

/// The decoding of `(type <line_style>)`.
pub open spec fn spec_line_style(e: SExpr) -> Result<LineStyle, ParseError> {
    match spec_named_head(e, "type") {
        Err(err) => Err(err),
        Ok(rest) => match spec_symbol_end(rest) {
            Err(err) => Err(err),
            Ok(s) => match line_style_named(s@) {
                Some(t) => Ok(t),
                None => Err(ParseError::ExpectedEnumSymbol(SExpr::Symbol(s), LINE_STYLE_SYMBOLS)),
            },
        },
    }
}

impl LineStyle {
    /// Decodes `(type <line_style>)`.
    pub fn try_from(e: &SExpr) -> (r: Result<LineStyle, ParseError>)
        ensures
            r == spec_line_style(*e),
    {
        let rest = expect_named_head(e, "type")?;
        let s = expect_symbol_end(rest)?;
        if text_is(&s, "dash") {
            Ok(LineStyle::Dash)
        } else if text_is(&s, "dash_dot") {
            Ok(LineStyle::DashDot)
        } else if text_is(&s, "dash_dot_dot") {
            Ok(LineStyle::DashDotDot)
        } else if text_is(&s, "dot") {
            Ok(LineStyle::Dot)
        } else if text_is(&s, "default") {
            Ok(LineStyle::Default)
        } else if text_is(&s, "solid") {
            Ok(LineStyle::Solid)
        } else {
            Err(ParseError::ExpectedEnumSymbol(SExpr::Symbol(s), LINE_STYLE_SYMBOLS))
        }
    }
}

/// A length in millimetres that closes a keyed element, as nanometres.
pub open spec fn spec_length_nm(el: SExpr) -> Result<i64, ParseError> {
    match spec_float_end(tail_of(el)) {
        Err(err) => Err(err),
        Ok(d) => Ok(spec_mm_to_nm(d)),
    }
}

/// Reads the length in millimetres that closes the keyed element `el`, as nanometres.
pub fn length_nm(el: &SExpr) -> (r: Result<i64, ParseError>)
    ensures
        r == spec_length_nm(*el),
{
    let d = expect_float_end(tail(el))?;
    Ok(mm_to_nm(d))
}

/// The fields of a stroke.
pub open spec fn stroke_rules() -> Seq<FieldRule> {
    seq![
        rule("width", "width", Multiplicity::Optional),
        rule("type", "type", Multiplicity::Optional),
        rule("color", "color", Multiplicity::Optional),
    ]
}

fn stroke_rules_exec() -> (r: Vec<FieldRule>)
    ensures
        r@ == stroke_rules(),
{
    let r = vec![
        FieldRule { key: "width", name: "width", multiplicity: Multiplicity::Optional },
        FieldRule { key: "type", name: "type", multiplicity: Multiplicity::Optional },
        FieldRule { key: "color", name: "color", multiplicity: Multiplicity::Optional },
    ];
    assert(r@ =~= stroke_rules());
    r
}

/// The decoding of `(stroke (width <mm>) (type <style>) (color ...))`.
pub open spec fn spec_stroke(e: SExpr) -> Result<Stroke, ParseError> {
    match spec_named_head(e, "stroke") {
        Err(err) => Err(err),
        Ok(rest) => match scan("stroke", stroke_rules(), rest) {
            Err(err) => Err(err),
            Ok(es) => match convert_opt(slot(es, 0), |x| spec_length_nm(x)) {
                Err(err) => Err(err),
                Ok(width) => match convert_opt(slot(es, 1), |x| spec_line_style(x)) {
                    Err(err) => Err(err),
                    Ok(line_style) => match convert_opt(slot(es, 2), |x| spec_color(x)) {
                        Err(err) => Err(err),
                        Ok(color) => Ok(Stroke { width, line_style, color }),
                    },
                },
            },
        },
    }
}

impl Stroke {
    /// Decodes `(stroke (width <mm>) (type <style>) (color ...))`.
    pub fn try_from(e: &SExpr) -> (r: Result<Stroke, ParseError>)
        ensures
            r == spec_stroke(*e),
    {
        let rest = expect_named_head(e, "stroke")?;
        let rules = stroke_rules_exec();
        let entries = scan_keyed("stroke", &rules, rest)?;
        let width = match slot_of(&entries, 0) {
            Some(el) => Some(length_nm(el)?),
            None => None,
        };
        let line_style = match slot_of(&entries, 1) {
            Some(el) => Some(LineStyle::try_from(el)?),
            None => None,
        };
        let color = match slot_of(&entries, 2) {
            Some(el) => Some(Color::try_from(el)?),
            None => None,
        };
        Ok(Stroke { width, line_style, color })
    }
}

} // verus!
