//! Library symbols: pins, properties, graphics, and the symbol itself.
use crate::error::ParseError;
use crate::expect::{
    expect_bool, expect_cons, expect_int_end, expect_named_head, expect_null, expect_str_head,
    expect_symbol_head, spec_bool, spec_expect_cons, spec_expect_null, spec_int_end,
    is_symbol, spec_named_head, spec_str_head, spec_symbol_head, text_is,
};
use crate::geometry::{
    spec_position, spec_xy_rest, Points, Position,
};
use crate::keyed::{
    check_required, convert_all, convert_opt, decode_all, deref_all, Decode, elements, elements_of, entries_view,
    flag_set, has_flag, lemma_convert_err, lemma_convert_step, lemma_convert_whole,
    lemma_required_present, rule, scan, scan_keyed, slot, slot_of, spec_required, tail, tail_of,
    FieldRule, Multiplicity,
};
use crate::keyed::{
    classify, field_of, lemma_classify_in_range, lemma_duplicate_rejected,
    lemma_keyed_order_independent, lemma_missing_reported, list_of,
};
use crate::sexpr::SExpr;
use crate::style::{length_nm, spec_fill, spec_length_nm, spec_stroke, Fill, Stroke};
use crate::text::{key_str, spec_effects, spec_key_str, TextEffects};
use vstd::prelude::*;

verus! {

/// The electrical type of a pin.
#[derive(Clone, Copy, Debug, PartialEq, Eq, Structural)]
pub enum SymbolPinElectricalType {
    Input,
    Output,
    Bidirectional,
    TriState,
    Passive,
    Free,
    Unspecified,
    PowerIn,
    PowerOut,
    OpenCollector,
    OpenEmitter,
    NoConnect,
}

/// The graphical style of a pin.
#[derive(Clone, Copy, Debug, PartialEq, Eq, Structural)]
pub enum SymbolPinGraphicalStyle {
    Line,
    Inverted,
    Clock,
    InvertedClock,
    InputLow,
    ClockLow,
    OutputLow,
    EdgeClockHigh,
    NonLogic,
}

/// The name of a pin `(name "<name>" (effects ...))`.
#[derive(Clone, Debug, PartialEq)]
pub struct SymbolPinName {
    pub name: String,
    pub text_effects: TextEffects,
}

/// The number of a pin `(number "<number>" (effects ...))`.
#[derive(Clone, Debug, PartialEq)]
pub struct SymbolPinNumber {
    pub number: String,
    pub text_effects: TextEffects,
}

/// How pin names are shown `(pin_names [(offset <mm>)] [hide])`.
#[derive(Clone, Copy, Debug, PartialEq, Eq, Structural)]
pub struct SymbolPinNameDefaults {
    /// Offset of the name in nanometres.
    pub offset: i64,
    /// Whether pin names are hidden.
    pub hide: bool,
}

/// How pin numbers are shown `(pin_numbers [hide])`.
#[derive(Clone, Copy, Debug, PartialEq, Eq, Structural)]
pub struct SymbolPinNumberDefaults {
    /// Whether pin numbers are hidden.
    pub hide: bool,
}

/// A property `(property "<key>" "<value>" [(id <n>)] [(at ...)] [(effects ...)])`.
#[derive(Clone, Debug, PartialEq)]
pub struct SymbolProperty {
    pub key: String,
    pub value: String,
    /// Integer identifier.
    pub identifier: Option<i64>,
    pub position: Option<Position>,
    pub text_effects: Option<TextEffects>,
}

/// A pin `(pin <electrical_type> <graphical_style> (at ...) (length <mm>) (name ...)
/// (number ...))`.
#[derive(Clone, Debug, PartialEq)]
pub struct SymbolPin {
    pub electrical_type: SymbolPinElectricalType,
    pub graphical_style: SymbolPinGraphicalStyle,
    pub position: Position,
    /// Length in nanometres; it may be negative.
    pub length: i64,
    pub name: SymbolPinName,
    pub number: SymbolPinNumber,
}

/// An arc `(arc (start ...) (mid ...) (end ...) (stroke ...) (fill ...))`.
#[derive(Clone, Copy, Debug, PartialEq, Eq, Structural)]
pub struct SymbolGraphicArc {
    pub start: Position,
    pub mid: Position,
    pub end: Position,
    pub stroke: Stroke,
    pub fill: Fill,
}

/// A Bezier curve.
#[derive(Clone, Debug, PartialEq)]
pub struct SymbolGraphicBezier {
    pub points: Points,
    pub stroke: Stroke,
    pub fill: Fill,
}

/// A circle; the radius is in nanometres.
#[derive(Clone, Copy, Debug, PartialEq, Eq, Structural)]
pub struct SymbolGraphicCircle {
    pub center: Position,
    pub radius: u64,
    pub stroke: Stroke,
    pub fill: Fill,
}

/// A polyline, not necessarily closed.
#[derive(Clone, Debug, PartialEq)]
pub struct SymbolGraphicPolyline {
    pub points: Points,
    pub stroke: Stroke,
    pub fill: Fill,
}

/// A rectangle.
#[derive(Clone, Copy, Debug, PartialEq, Eq, Structural)]
pub struct SymbolGraphicRectangle {
    pub start: Position,
    pub end: Position,
    pub stroke: Stroke,
    pub fill: Fill,
}

/// A text item.
#[derive(Clone, Debug, PartialEq)]
pub struct SymbolGraphicText {
    pub text: String,
    pub position: Position,
    pub text_effects: TextEffects,
}

/// A graphic item of a symbol.
#[derive(Clone, Debug, PartialEq)]
pub enum SymbolGraphic {
    Arc(SymbolGraphicArc),
    Bezier(SymbolGraphicBezier),
    Circle(SymbolGraphicCircle),
    Polyline(SymbolGraphicPolyline),
    Rectangle(SymbolGraphicRectangle),
    Text(SymbolGraphicText),
}

/// A library symbol, or a unit of one.
#[derive(Clone, Debug, PartialEq)]
pub struct Symbol {
    /// The library or unit identifier.
    pub id: String,
    /// The symbol this one extends.
    pub extends: Option<String>,
    pub pin_numbers: SymbolPinNumberDefaults,
    pub pin_names: SymbolPinNameDefaults,
    pub exclude_from_sim: Option<bool>,
    pub in_bom: Option<bool>,
    pub on_board: Option<bool>,
    pub properties: Vec<SymbolProperty>,
    pub graphics: Vec<SymbolGraphic>,
    pub pins: Vec<SymbolPin>,
}

/// The accepted electrical type symbols.
pub const ELECTRICAL_TYPE_SYMBOLS: &'static str =
    "input, output, bidirectional, tri_state, passive, free, unspecified, power_in, power_out, open_collector, open_emitter, no_connect";

/// The accepted graphical style symbols.
pub const GRAPHICAL_STYLE_SYMBOLS: &'static str =
    "line, inverted, clock, inverted_clock, input_low, clock_low, output_low, edge_clock_high, non_logic";

/// The electrical type named `s`.
pub open spec fn electrical_type_named(s: Seq<char>) -> Option<SymbolPinElectricalType> {
    if s == "input"@ {
        Some(SymbolPinElectricalType::Input)
    } else if s == "output"@ {
        Some(SymbolPinElectricalType::Output)
    } else if s == "bidirectional"@ {
        Some(SymbolPinElectricalType::Bidirectional)
    } else if s == "tri_state"@ {
        Some(SymbolPinElectricalType::TriState)
    } else if s == "passive"@ {
        Some(SymbolPinElectricalType::Passive)
    } else if s == "free"@ {
        Some(SymbolPinElectricalType::Free)
    } else if s == "unspecified"@ {
        Some(SymbolPinElectricalType::Unspecified)
    } else if s == "power_in"@ {
        Some(SymbolPinElectricalType::PowerIn)
    } else if s == "power_out"@ {
        Some(SymbolPinElectricalType::PowerOut)
    } else if s == "open_collector"@ {
        Some(SymbolPinElectricalType::OpenCollector)
    } else if s == "open_emitter"@ {
        Some(SymbolPinElectricalType::OpenEmitter)
    } else if s == "no_connect"@ {
        Some(SymbolPinElectricalType::NoConnect)
    } else {
        None
    }
}

/// The decoding of an electrical type symbol.
pub open spec fn spec_electrical_type(s: String) -> Result<SymbolPinElectricalType, ParseError> {
    match electrical_type_named(s@) {
        Some(t) => Ok(t),
        None => Err(ParseError::ExpectedEnumSymbol(SExpr::Symbol(s), ELECTRICAL_TYPE_SYMBOLS)),
    }
}

impl SymbolPinElectricalType {
    /// The electrical type named `s`.
    pub fn from_str(s: &String) -> (r: Result<SymbolPinElectricalType, ParseError>)
        ensures
            r == spec_electrical_type(*s),
    {
        if text_is(s, "input") {
            Ok(SymbolPinElectricalType::Input)
        } else if text_is(s, "output") {
            Ok(SymbolPinElectricalType::Output)
        } else if text_is(s, "bidirectional") {
            Ok(SymbolPinElectricalType::Bidirectional)
        } else if text_is(s, "tri_state") {
            Ok(SymbolPinElectricalType::TriState)
        } else if text_is(s, "passive") {
            Ok(SymbolPinElectricalType::Passive)
        } else if text_is(s, "free") {
            Ok(SymbolPinElectricalType::Free)
        } else if text_is(s, "unspecified") {
            Ok(SymbolPinElectricalType::Unspecified)
        } else if text_is(s, "power_in") {
            Ok(SymbolPinElectricalType::PowerIn)
        } else if text_is(s, "power_out") {
            Ok(SymbolPinElectricalType::PowerOut)
        } else if text_is(s, "open_collector") {
            Ok(SymbolPinElectricalType::OpenCollector)
        } else if text_is(s, "open_emitter") {
            Ok(SymbolPinElectricalType::OpenEmitter)
        } else if text_is(s, "no_connect") {
            Ok(SymbolPinElectricalType::NoConnect)
        } else {
            Err(ParseError::ExpectedEnumSymbol(SExpr::Symbol(s.clone()), ELECTRICAL_TYPE_SYMBOLS))
        }
    }
}

/// The graphical style named `s`.
pub open spec fn graphical_style_named(s: Seq<char>) -> Option<SymbolPinGraphicalStyle> {
    if s == "line"@ {
        Some(SymbolPinGraphicalStyle::Line)
    } else if s == "inverted"@ {
        Some(SymbolPinGraphicalStyle::Inverted)
    } else if s == "clock"@ {
        Some(SymbolPinGraphicalStyle::Clock)
    } else if s == "inverted_clock"@ {
        Some(SymbolPinGraphicalStyle::InvertedClock)
    } else if s == "input_low"@ {
        Some(SymbolPinGraphicalStyle::InputLow)
    } else if s == "clock_low"@ {
        Some(SymbolPinGraphicalStyle::ClockLow)
    } else if s == "output_low"@ {
        Some(SymbolPinGraphicalStyle::OutputLow)
    } else if s == "edge_clock_high"@ {
        Some(SymbolPinGraphicalStyle::EdgeClockHigh)
    } else if s == "non_logic"@ {
        Some(SymbolPinGraphicalStyle::NonLogic)
    } else {
        None
    }
}

/// The decoding of a graphical style symbol.
pub open spec fn spec_graphical_style(s: String) -> Result<SymbolPinGraphicalStyle, ParseError> {
    match graphical_style_named(s@) {
        Some(t) => Ok(t),
        None => Err(ParseError::ExpectedEnumSymbol(SExpr::Symbol(s), GRAPHICAL_STYLE_SYMBOLS)),
    }
}

impl SymbolPinGraphicalStyle {
    /// The graphical style named `s`.
    pub fn from_str(s: &String) -> (r: Result<SymbolPinGraphicalStyle, ParseError>)
        ensures
            r == spec_graphical_style(*s),
    {
        if text_is(s, "line") {
            Ok(SymbolPinGraphicalStyle::Line)
        } else if text_is(s, "inverted") {
            Ok(SymbolPinGraphicalStyle::Inverted)
        } else if text_is(s, "clock") {
            Ok(SymbolPinGraphicalStyle::Clock)
        } else if text_is(s, "inverted_clock") {
            Ok(SymbolPinGraphicalStyle::InvertedClock)
        } else if text_is(s, "input_low") {
            Ok(SymbolPinGraphicalStyle::InputLow)
        } else if text_is(s, "clock_low") {
            Ok(SymbolPinGraphicalStyle::ClockLow)
        } else if text_is(s, "output_low") {
            Ok(SymbolPinGraphicalStyle::OutputLow)
        } else if text_is(s, "edge_clock_high") {
            Ok(SymbolPinGraphicalStyle::EdgeClockHigh)
        } else if text_is(s, "non_logic") {
            Ok(SymbolPinGraphicalStyle::NonLogic)
        } else {
            Err(ParseError::ExpectedEnumSymbol(SExpr::Symbol(s.clone()), GRAPHICAL_STYLE_SYMBOLS))
        }
    }
}

impl SymbolPinNameDefaults {
    /// Whether this is the default treatment: no offset, names shown.
    pub fn is_default(&self) -> (r: bool)
        ensures
            r == (self.offset == 0 && !self.hide),
    {
        self.offset == 0 && !self.hide
    }
}

impl SymbolPinNumberDefaults {
    /// Whether this is the default treatment: numbers shown.
    pub fn is_default(&self) -> (r: bool)
        ensures
            r == !self.hide,
    {
        !self.hide
    }
}

/// The fields of a pin name or number.
pub open spec fn label_rules() -> Seq<FieldRule> {
    seq![rule("effects", "effects", Multiplicity::Required)]
}

fn label_rules_exec() -> (r: Vec<FieldRule>)
    ensures
        r@ == label_rules(),
{
    let r = vec![FieldRule { key: "effects", name: "effects", multiplicity: Multiplicity::Required }];
    assert(r@ =~= label_rules());
    r
}

/// The decoding of `(<head> "<text>" (effects ...))`: the text and its effects.
pub open spec fn spec_label(e: SExpr, head: &'static str) -> Result<(String, TextEffects), ParseError> {
    match spec_named_head(e, head) {
        Err(err) => Err(err),
        Ok(rest) => match spec_str_head(rest) {
            Err(err) => Err(err),
            Ok((text, rest)) => match scan(head, label_rules(), rest) {
                Err(err) => Err(err),
                Ok(es) => match convert_opt(slot(es, 0), |x| spec_effects(x)) {
                    Err(err) => Err(err),
                    Ok(effects) => match spec_required(head, label_rules(), es, e) {
                        Err(err) => Err(err),
                        Ok(_) => Ok((text, effects.unwrap())),
                    },
                },
            },
        },
    }
}

/// Decodes `(<head> "<text>" (effects ...))`.
fn label(e: &SExpr, head: &'static str) -> (r: Result<(String, TextEffects), ParseError>)
    ensures
        r == spec_label(*e, head),
{
    let rest = expect_named_head(e, head)?;
    let (text, rest) = expect_str_head(rest)?;
    let rules = label_rules_exec();
    let entries = scan_keyed(head, &rules, rest)?;
    let effects = match slot_of(&entries, 0) {
        Some(el) => Some(TextEffects::try_from(el)?),
        None => None,
    };
    check_required(head, &rules, &entries, e)?;
    proof {
        lemma_required_present(rules@, entries_view(entries@), 0);
    }
    match effects {
        Some(effects) => Ok((text, effects)),
        None => vstd::pervasive::unreached(),
    }
}

/// The decoding of a pin name.
pub open spec fn spec_pin_name(e: SExpr) -> Result<SymbolPinName, ParseError> {
    match spec_label(e, "name") {
        Err(err) => Err(err),
        Ok((name, text_effects)) => Ok(SymbolPinName { name, text_effects }),
    }
}

/// The decoding of a pin number.
pub open spec fn spec_pin_number(e: SExpr) -> Result<SymbolPinNumber, ParseError> {
    match spec_label(e, "number") {
        Err(err) => Err(err),
        Ok((number, text_effects)) => Ok(SymbolPinNumber { number, text_effects }),
    }
}

impl SymbolPinName {
    /// Decodes `(name "<name>" (effects ...))`.
    pub fn try_from(e: &SExpr) -> (r: Result<SymbolPinName, ParseError>)
        ensures
            r == spec_pin_name(*e),
    {
        let (name, text_effects) = label(e, "name")?;
        Ok(SymbolPinName { name, text_effects })
    }
}

impl SymbolPinNumber {
    /// Decodes `(number "<number>" (effects ...))`.
    pub fn try_from(e: &SExpr) -> (r: Result<SymbolPinNumber, ParseError>)
        ensures
            r == spec_pin_number(*e),
    {
        let (number, text_effects) = label(e, "number")?;
        Ok(SymbolPinNumber { number, text_effects })
    }
}

/// The fields of the pin name defaults.
pub open spec fn pin_names_rules() -> Seq<FieldRule> {
    seq![rule("offset", "offset", Multiplicity::Optional), rule("hide", "hide", Multiplicity::Flag)]
}

fn pin_names_rules_exec() -> (r: Vec<FieldRule>)
    ensures
        r@ == pin_names_rules(),
{
    let r = vec![
        FieldRule { key: "offset", name: "offset", multiplicity: Multiplicity::Optional },
        FieldRule { key: "hide", name: "hide", multiplicity: Multiplicity::Flag },
    ];
    assert(r@ =~= pin_names_rules());
    r
}

/// The decoding of `(pin_names [(offset <mm>)] [hide])`.
pub open spec fn spec_pin_names(e: SExpr) -> Result<SymbolPinNameDefaults, ParseError> {
    match spec_named_head(e, "pin_names") {
        Err(err) => Err(err),
        Ok(rest) => match scan("pin_names", pin_names_rules(), rest) {
            Err(err) => Err(err),
            Ok(es) => match convert_opt(slot(es, 0), |x| spec_length_nm(x)) {
                Err(err) => Err(err),
                Ok(offset) => Ok(
                    SymbolPinNameDefaults {
                        offset: match offset {
                            Some(o) => o,
                            None => 0,
                        },
                        hide: flag_set(es, 1),
                    },
                ),
            },
        },
    }
}

impl SymbolPinNameDefaults {
    /// Decodes `(pin_names [(offset <mm>)] [hide])`.
    pub fn try_from(e: &SExpr) -> (r: Result<SymbolPinNameDefaults, ParseError>)
        ensures
            r == spec_pin_names(*e),
    {
        let rest = expect_named_head(e, "pin_names")?;
        let rules = pin_names_rules_exec();
        let entries = scan_keyed("pin_names", &rules, rest)?;
        let offset = match slot_of(&entries, 0) {
            Some(el) => length_nm(el)?,
            None => 0,
        };
        let hide = has_flag(&entries, 1);
        Ok(SymbolPinNameDefaults { offset, hide })
    }
}

/// The fields of the pin number defaults.
pub open spec fn pin_numbers_rules() -> Seq<FieldRule> {
    seq![rule("hide", "hide", Multiplicity::Flag)]
}

fn pin_numbers_rules_exec() -> (r: Vec<FieldRule>)
    ensures
        r@ == pin_numbers_rules(),
{
    let r = vec![FieldRule { key: "hide", name: "hide", multiplicity: Multiplicity::Flag }];
    assert(r@ =~= pin_numbers_rules());
    r
}

/// The decoding of `(pin_numbers [hide])`.
pub open spec fn spec_pin_numbers(e: SExpr) -> Result<SymbolPinNumberDefaults, ParseError> {
    match spec_named_head(e, "pin_numbers") {
        Err(err) => Err(err),
        Ok(rest) => match scan("pin_numbers", pin_numbers_rules(), rest) {
            Err(err) => Err(err),
            Ok(es) => Ok(SymbolPinNumberDefaults { hide: flag_set(es, 0) }),
        },
    }
}

impl SymbolPinNumberDefaults {
    /// Decodes `(pin_numbers [hide])`.
    pub fn try_from(e: &SExpr) -> (r: Result<SymbolPinNumberDefaults, ParseError>)
        ensures
            r == spec_pin_numbers(*e),
    {
        let rest = expect_named_head(e, "pin_numbers")?;
        let rules = pin_numbers_rules_exec();
        let entries = scan_keyed("pin_numbers", &rules, rest)?;
        Ok(SymbolPinNumberDefaults { hide: has_flag(&entries, 0) })
    }
}

/// The fields of a property.
pub open spec fn property_rules() -> Seq<FieldRule> {
    seq![
        rule("id", "id", Multiplicity::Optional),
        rule("at", "at", Multiplicity::Optional),
        rule("effects", "effects", Multiplicity::Optional),
    ]
}

fn property_rules_exec() -> (r: Vec<FieldRule>)
    ensures
        r@ == property_rules(),
{
    let r = vec![
        FieldRule { key: "id", name: "id", multiplicity: Multiplicity::Optional },
        FieldRule { key: "at", name: "at", multiplicity: Multiplicity::Optional },
        FieldRule { key: "effects", name: "effects", multiplicity: Multiplicity::Optional },
    ];
    assert(r@ =~= property_rules());
    r
}

/// The decoding of a property.
pub open spec fn spec_property(e: SExpr) -> Result<SymbolProperty, ParseError> {
    match spec_named_head(e, "property") {
        Err(err) => Err(err),
        Ok(rest) => match spec_str_head(rest) {
            Err(err) => Err(err),
            Ok((key, rest)) => match spec_str_head(rest) {
                Err(err) => Err(err),
                Ok((value, rest)) => match scan("property", property_rules(), rest) {
                    Err(err) => Err(err),
                    Ok(es) => match convert_opt(slot(es, 0), |x| spec_int_end(tail_of(x))) {
                        Err(err) => Err(err),
                        Ok(identifier) => match convert_opt(slot(es, 1), |x| spec_position(x)) {
                            Err(err) => Err(err),
                            Ok(position) => match convert_opt(slot(es, 2), |x| spec_effects(x)) {
                                Err(err) => Err(err),
                                Ok(text_effects) => Ok(
                                    SymbolProperty {
                                        key,
                                        value,
                                        identifier,
                                        position,
                                        text_effects,
                                    },
                                ),
                            },
                        },
                    },
                },
            },
        },
    }
}

impl SymbolProperty {
    /// Decodes `(property "<key>" "<value>" [(id <n>)] [(at ...)] [(effects ...)])`.
    pub fn try_from(e: &SExpr) -> (r: Result<SymbolProperty, ParseError>)
        ensures
            r == spec_property(*e),
    {
        let rest = expect_named_head(e, "property")?;
        let (key, rest) = expect_str_head(rest)?;
        let (value, rest) = expect_str_head(rest)?;
        let rules = property_rules_exec();
        let entries = scan_keyed("property", &rules, rest)?;
        let identifier = match slot_of(&entries, 0) {
            Some(el) => Some(expect_int_end(tail(el))?),
            None => None,
        };
        let position = match slot_of(&entries, 1) {
            Some(el) => Some(Position::try_from(el)?),
            None => None,
        };
        let text_effects = match slot_of(&entries, 2) {
            Some(el) => Some(TextEffects::try_from(el)?),
            None => None,
        };
        Ok(SymbolProperty { key, value, identifier, position, text_effects })
    }
}

} // verus!

verus! {

/// The fields of a pin.
pub open spec fn pin_rules() -> Seq<FieldRule> {
    seq![
        rule("at", "position", Multiplicity::Required),
        rule("length", "length", Multiplicity::Required),
        rule("name", "name", Multiplicity::Required),
        rule("number", "number", Multiplicity::Required),
    ]
}

fn pin_rules_exec() -> (r: Vec<FieldRule>)
    ensures
        r@ == pin_rules(),
{
    let r = vec![
        FieldRule { key: "at", name: "position", multiplicity: Multiplicity::Required },
        FieldRule { key: "length", name: "length", multiplicity: Multiplicity::Required },
        FieldRule { key: "name", name: "name", multiplicity: Multiplicity::Required },
        FieldRule { key: "number", name: "number", multiplicity: Multiplicity::Required },
    ];
    assert(r@ =~= pin_rules());
    r
}

/// The decoding of a pin.
pub open spec fn spec_pin(e: SExpr) -> Result<SymbolPin, ParseError> {
    match spec_named_head(e, "pin") {
        Err(err) => Err(err),
        Ok(rest) => match spec_symbol_head(rest) {
            Err(err) => Err(err),
            Ok((et, rest)) => match spec_electrical_type(et) {
                Err(err) => Err(err),
                Ok(electrical_type) => match spec_symbol_head(rest) {
                    Err(err) => Err(err),
                    Ok((gs, rest)) => match spec_graphical_style(gs) {
                        Err(err) => Err(err),
                        Ok(graphical_style) => spec_pin_fields(
                            e,
                            electrical_type,
                            graphical_style,
                            rest,
                        ),
                    },
                },
            },
        },
    }
}

/// The keyed part of a pin, after its two type symbols.
pub open spec fn spec_pin_fields(
    e: SExpr,
    electrical_type: SymbolPinElectricalType,
    graphical_style: SymbolPinGraphicalStyle,
    rest: SExpr,
) -> Result<SymbolPin, ParseError> {
    match scan("pin", pin_rules(), rest) {
        Err(err) => Err(err),
        Ok(es) => match convert_opt(slot(es, 0), |x| spec_position(x)) {
            Err(err) => Err(err),
            Ok(position) => match convert_opt(slot(es, 1), |x| spec_length_nm(x)) {
                Err(err) => Err(err),
                Ok(length) => match convert_opt(slot(es, 2), |x| spec_pin_name(x)) {
                    Err(err) => Err(err),
                    Ok(name) => match convert_opt(slot(es, 3), |x| spec_pin_number(x)) {
                        Err(err) => Err(err),
                        Ok(number) => match spec_required("pin", pin_rules(), es, e) {
                            Err(err) => Err(err),
                            Ok(_) => Ok(
                                SymbolPin {
                                    electrical_type,
                                    graphical_style,
                                    position: position.unwrap(),
                                    length: length.unwrap(),
                                    name: name.unwrap(),
                                    number: number.unwrap(),
                                },
                            ),
                        },
                    },
                },
            },
        },
    }
}

impl SymbolPin {
    /// Decodes a pin: two type symbols, then its keyed fields, all of them required.
    pub fn try_from(e: &SExpr) -> (r: Result<SymbolPin, ParseError>)
        ensures
            r == spec_pin(*e),
    {
        let rest = expect_named_head(e, "pin")?;
        let (et, rest) = expect_symbol_head(rest)?;
        let electrical_type = SymbolPinElectricalType::from_str(&et)?;
        let (gs, rest) = expect_symbol_head(rest)?;
        let graphical_style = SymbolPinGraphicalStyle::from_str(&gs)?;
        let rules = pin_rules_exec();
        let entries = scan_keyed("pin", &rules, rest)?;
        let position = match slot_of(&entries, 0) {
            Some(el) => Some(Position::try_from(el)?),
            None => None,
        };
        let length = match slot_of(&entries, 1) {
            Some(el) => Some(length_nm(el)?),
            None => None,
        };
        let name = match slot_of(&entries, 2) {
            Some(el) => Some(SymbolPinName::try_from(el)?),
            None => None,
        };
        let number = match slot_of(&entries, 3) {
            Some(el) => Some(SymbolPinNumber::try_from(el)?),
            None => None,
        };
        check_required("pin", &rules, &entries, e)?;
        proof {
            lemma_required_present(rules@, entries_view(entries@), 0);
            lemma_required_present(rules@, entries_view(entries@), 1);
            lemma_required_present(rules@, entries_view(entries@), 2);
            lemma_required_present(rules@, entries_view(entries@), 3);
        }
        match (position, length, name, number) {
            (Some(position), Some(length), Some(name), Some(number)) => Ok(
                SymbolPin { electrical_type, graphical_style, position, length, name, number },
            ),
            _ => vstd::pervasive::unreached(),
        }
    }
}

/// The fields of an arc.
pub open spec fn arc_rules() -> Seq<FieldRule> {
    seq![
        rule("start", "start", Multiplicity::Required),
        rule("mid", "mid", Multiplicity::Required),
        rule("end", "end", Multiplicity::Required),
        rule("stroke", "stroke", Multiplicity::Required),
        rule("fill", "fill", Multiplicity::Required),
    ]
}

fn arc_rules_exec() -> (r: Vec<FieldRule>)
    ensures
        r@ == arc_rules(),
{
    let r = vec![
        FieldRule { key: "start", name: "start", multiplicity: Multiplicity::Required },
        FieldRule { key: "mid", name: "mid", multiplicity: Multiplicity::Required },
        FieldRule { key: "end", name: "end", multiplicity: Multiplicity::Required },
        FieldRule { key: "stroke", name: "stroke", multiplicity: Multiplicity::Required },
        FieldRule { key: "fill", name: "fill", multiplicity: Multiplicity::Required },
    ];
    assert(r@ =~= arc_rules());
    r
}

/// The coordinates that close a keyed element such as `(start <x> <y>)`.
pub open spec fn spec_key_xy(el: SExpr) -> Result<Position, ParseError> {
    spec_xy_rest(tail_of(el))
}

/// The decoding of an arc.
pub open spec fn spec_arc(e: SExpr) -> Result<SymbolGraphicArc, ParseError> {
    match spec_named_head(e, "arc") {
        Err(err) => Err(err),
        Ok(rest) => match scan("arc", arc_rules(), rest) {
            Err(err) => Err(err),
            Ok(es) => match convert_opt(slot(es, 0), |x| spec_key_xy(x)) {
                Err(err) => Err(err),
                Ok(start) => match convert_opt(slot(es, 1), |x| spec_key_xy(x)) {
                    Err(err) => Err(err),
                    Ok(mid) => match convert_opt(slot(es, 2), |x| spec_key_xy(x)) {
                        Err(err) => Err(err),
                        Ok(end) => match convert_opt(slot(es, 3), |x| spec_stroke(x)) {
                            Err(err) => Err(err),
                            Ok(stroke) => match convert_opt(slot(es, 4), |x| spec_fill(x)) {
                                Err(err) => Err(err),
                                Ok(fill) => match spec_required("arc", arc_rules(), es, e) {
                                    Err(err) => Err(err),
                                    Ok(_) => Ok(
                                        SymbolGraphicArc {
                                            start: start.unwrap(),
                                            mid: mid.unwrap(),
                                            end: end.unwrap(),
                                            stroke: stroke.unwrap(),
                                            fill: fill.unwrap(),
                                        },
                                    ),
                                },
                            },
                        },
                    },
                },
            },
        },
    }
}

impl SymbolGraphicArc {
    /// Decodes an arc; all of its fields are required.
    pub fn try_from(e: &SExpr) -> (r: Result<SymbolGraphicArc, ParseError>)
        ensures
            r == spec_arc(*e),
    {
        let rest = expect_named_head(e, "arc")?;
        let rules = arc_rules_exec();
        let entries = scan_keyed("arc", &rules, rest)?;
        let start = match slot_of(&entries, 0) {
            Some(el) => Some(Position::try_from_xy_cons(tail(el))?),
            None => None,
        };
        let mid = match slot_of(&entries, 1) {
            Some(el) => Some(Position::try_from_xy_cons(tail(el))?),
            None => None,
        };
        let end = match slot_of(&entries, 2) {
            Some(el) => Some(Position::try_from_xy_cons(tail(el))?),
            None => None,
        };
        let stroke = match slot_of(&entries, 3) {
            Some(el) => Some(Stroke::try_from(el)?),
            None => None,
        };
        let fill = match slot_of(&entries, 4) {
            Some(el) => Some(Fill::try_from(el)?),
            None => None,
        };
        check_required("arc", &rules, &entries, e)?;
        proof {
            lemma_required_present(rules@, entries_view(entries@), 0);
            lemma_required_present(rules@, entries_view(entries@), 1);
            lemma_required_present(rules@, entries_view(entries@), 2);
            lemma_required_present(rules@, entries_view(entries@), 3);
            lemma_required_present(rules@, entries_view(entries@), 4);
        }
        match (start, mid, end, stroke, fill) {
            (Some(start), Some(mid), Some(end), Some(stroke), Some(fill)) => Ok(
                SymbolGraphicArc { start, mid, end, stroke, fill },
            ),
            _ => vstd::pervasive::unreached(),
        }
    }
}

} // verus!

verus! {

/// What a decoded symbol holds.
pub struct SymbolView {
    pub id: String,
    pub extends: Option<String>,
    pub pin_numbers: SymbolPinNumberDefaults,
    pub pin_names: SymbolPinNameDefaults,
    pub exclude_from_sim: Option<bool>,
    pub in_bom: Option<bool>,
    pub on_board: Option<bool>,
    pub properties: Seq<SymbolProperty>,
    pub graphics: Seq<SymbolGraphic>,
    pub pins: Seq<SymbolPin>,
}

/// Whether `s` holds what `v` describes.
pub open spec fn symbol_is(s: Symbol, v: SymbolView) -> bool {
    &&& s.id == v.id
    &&& s.extends == v.extends
    &&& s.pin_numbers == v.pin_numbers
    &&& s.pin_names == v.pin_names
    &&& s.exclude_from_sim == v.exclude_from_sim
    &&& s.in_bom == v.in_bom
    &&& s.on_board == v.on_board
    &&& s.properties@ == v.properties
    &&& s.graphics@ == v.graphics
    &&& s.pins@ == v.pins
}

/// The truth value that closes a keyed element, as in `(in_bom yes)`.
pub open spec fn spec_key_bool(el: SExpr) -> Result<bool, ParseError> {
    match spec_expect_cons(tail_of(el)) {
        Err(err) => Err(err),
        Ok((value, rest)) => match spec_expect_null(rest) {
            Err(err) => Err(err),
            Ok(_) => spec_bool(value),
        },
    }
}

/// Reads the truth value that closes the keyed element `el`.
fn key_bool(el: &SExpr) -> (r: Result<bool, ParseError>)
    ensures
        r == spec_key_bool(*el),
{
    let (value, rest) = expect_cons(tail(el))?;
    expect_null(rest)?;
    expect_bool(value)
}

/// The decoding of an arc as a graphic item.
pub open spec fn spec_arc_graphic(e: SExpr) -> Result<SymbolGraphic, ParseError> {
    match spec_arc(e) {
        Err(err) => Err(err),
        Ok(a) => Ok(SymbolGraphic::Arc(a)),
    }
}

/// The fields of a symbol.
pub open spec fn symbol_rules() -> Seq<FieldRule> {
    seq![
        rule("extends", "extends", Multiplicity::Optional),
        rule("pin_numbers", "pin_numbers", Multiplicity::Optional),
        rule("pin_names", "pin_names", Multiplicity::Optional),
        rule("exclude_from_sim", "exclude_from_sim", Multiplicity::Optional),
        rule("in_bom", "in_bom", Multiplicity::Optional),
        rule("on_board", "on_board", Multiplicity::Optional),
        rule("property", "property", Multiplicity::Repeated),
        rule("arc", "arc", Multiplicity::Repeated),
        rule("pin", "pin", Multiplicity::Repeated),
    ]
}

fn symbol_rules_exec() -> (r: Vec<FieldRule>)
    ensures
        r@ == symbol_rules(),
{
    let r = vec![
        FieldRule { key: "extends", name: "extends", multiplicity: Multiplicity::Optional },
        FieldRule { key: "pin_numbers", name: "pin_numbers", multiplicity: Multiplicity::Optional },
        FieldRule { key: "pin_names", name: "pin_names", multiplicity: Multiplicity::Optional },
        FieldRule { key: "exclude_from_sim", name: "exclude_from_sim", multiplicity: Multiplicity::Optional },
        FieldRule { key: "in_bom", name: "in_bom", multiplicity: Multiplicity::Optional },
        FieldRule { key: "on_board", name: "on_board", multiplicity: Multiplicity::Optional },
        FieldRule { key: "property", name: "property", multiplicity: Multiplicity::Repeated },
        FieldRule { key: "arc", name: "arc", multiplicity: Multiplicity::Repeated },
        FieldRule { key: "pin", name: "pin", multiplicity: Multiplicity::Repeated },
    ];
    assert(r@ =~= symbol_rules());
    r
}

/// The decoding of the keyed part of a symbol from its entries.
pub open spec fn spec_symbol_fields(id: String, es: Seq<(int, SExpr)>) -> Result<SymbolView, ParseError> {
    match convert_opt(slot(es, 0), |x| spec_key_str(x)) {
        Err(err) => Err(err),
        Ok(extends) => match convert_opt(slot(es, 1), |x| spec_pin_numbers(x)) {
            Err(err) => Err(err),
            Ok(pin_numbers) => match convert_opt(slot(es, 2), |x| spec_pin_names(x)) {
                Err(err) => Err(err),
                Ok(pin_names) => match convert_opt(slot(es, 3), |x| spec_key_bool(x)) {
                    Err(err) => Err(err),
                    Ok(exclude_from_sim) => match convert_opt(slot(es, 4), |x| spec_key_bool(x)) {
                        Err(err) => Err(err),
                        Ok(in_bom) => match convert_opt(slot(es, 5), |x| spec_key_bool(x)) {
                            Err(err) => Err(err),
                            Ok(on_board) => match convert_all(
                                elements_of(es, 6),
                                |x| SymbolProperty::spec_decode(x),
                            ) {
                                Err(err) => Err(err),
                                Ok(properties) => match convert_all(
                                    elements_of(es, 7),
                                    |x| spec_arc_graphic(x),
                                ) {
                                    Err(err) => Err(err),
                                    Ok(graphics) => match convert_all(
                                        elements_of(es, 8),
                                        |x| SymbolPin::spec_decode(x),
                                    ) {
                                        Err(err) => Err(err),
                                        Ok(pins) => Ok(
                                            SymbolView {
                                                id,
                                                extends,
                                                pin_numbers: match pin_numbers {
                                                    Some(p) => p,
                                                    None => SymbolPinNumberDefaults { hide: false },
                                                },
                                                pin_names: match pin_names {
                                                    Some(p) => p,
                                                    None => SymbolPinNameDefaults {
                                                        offset: 0,
                                                        hide: false,
                                                    },
                                                },
                                                exclude_from_sim,
                                                in_bom,
                                                on_board,
                                                properties,
                                                graphics,
                                                pins,
                                            },
                                        ),
                                    },
                                },
                            },
                        },
                    },
                },
            },
        },
    }
}

/// The decoding of a symbol.
pub open spec fn spec_symbol(e: SExpr) -> Result<SymbolView, ParseError> {
    match spec_named_head(e, "symbol") {
        Err(err) => Err(err),
        Ok(rest) => match spec_str_head(rest) {
            Err(err) => Err(err),
            Ok((id, rest)) => match scan("symbol", symbol_rules(), rest) {
                Err(err) => Err(err),
                Ok(es) => spec_symbol_fields(id, es),
            },
        },
    }
}

/// Decodes each element as an arc, in order.
fn decode_arcs(els: &Vec<&SExpr>) -> (r: Result<Vec<SymbolGraphic>, ParseError>)
    ensures
        match convert_all(deref_all(els@), |x| spec_arc_graphic(x)) {
            Ok(v) => r matches Ok(w) && w@ == v,
            Err(err) => r matches Err(e2) && e2 == err,
        },
{
    let ghost all = deref_all(els@);
    let ghost f = |x| spec_arc_graphic(x);
    proof {
        lemma_convert_whole(all, f);
    }
    let mut out: Vec<SymbolGraphic> = Vec::new();
    let mut k: usize = 0;
    while k < els.len()
        invariant
            all == deref_all(els@),
            f == (|x| spec_arc_graphic(x)),
            k <= els@.len(),
            convert_all(all.take(k as int), f) == Ok::<Seq<SymbolGraphic>, ParseError>(out@),
        decreases els@.len() - k,
    {
        proof {
            lemma_convert_step(all, k as int, f);
        }
        match SymbolGraphicArc::try_from(els[k]) {
            Ok(a) => out.push(SymbolGraphic::Arc(a)),
            Err(err) => {
                proof {
                    lemma_convert_err(all, k + 1, f);
                }
                return Err(err);
            },
        }
        k = k + 1;
    }
    proof {
        lemma_convert_whole(all, f);
    }
    Ok(out)
}

impl Decode for SymbolProperty {
    open spec fn spec_decode(e: SExpr) -> Result<SymbolProperty, ParseError> {
        spec_property(e)
    }

    fn decode(e: &SExpr) -> (r: Result<SymbolProperty, ParseError>) {
        SymbolProperty::try_from(e)
    }
}

impl Decode for SymbolPin {
    open spec fn spec_decode(e: SExpr) -> Result<SymbolPin, ParseError> {
        spec_pin(e)
    }

    fn decode(e: &SExpr) -> (r: Result<SymbolPin, ParseError>) {
        SymbolPin::try_from(e)
    }
}

impl Symbol {
    /// Decodes `(symbol "<id>" ...)`: its keyed elements may come in any order.
    pub fn try_from(e: &SExpr) -> (r: Result<Symbol, ParseError>)
        ensures
            match spec_symbol(*e) {
                Ok(v) => r matches Ok(s) && symbol_is(s, v),
                Err(err) => r matches Err(e2) && e2 == err,
            },
    {
        let rest = expect_named_head(e, "symbol")?;
        let (id, rest) = expect_str_head(rest)?;
        let rules = symbol_rules_exec();
        let entries = scan_keyed("symbol", &rules, rest)?;
        let extends = match slot_of(&entries, 0) {
            Some(el) => Some(key_str(el)?),
            None => None,
        };
        let pin_numbers = match slot_of(&entries, 1) {
            Some(el) => SymbolPinNumberDefaults::try_from(el)?,
            None => SymbolPinNumberDefaults { hide: false },
        };
        let pin_names = match slot_of(&entries, 2) {
            Some(el) => SymbolPinNameDefaults::try_from(el)?,
            None => SymbolPinNameDefaults { offset: 0, hide: false },
        };
        let exclude_from_sim = match slot_of(&entries, 3) {
            Some(el) => Some(key_bool(el)?),
            None => None,
        };
        let in_bom = match slot_of(&entries, 4) {
            Some(el) => Some(key_bool(el)?),
            None => None,
        };
        let on_board = match slot_of(&entries, 5) {
            Some(el) => Some(key_bool(el)?),
            None => None,
        };
        let properties = decode_all::<SymbolProperty>(&elements(&entries, 6))?;
        let graphics = decode_arcs(&elements(&entries, 7))?;
        let pins = decode_all::<SymbolPin>(&elements(&entries, 8))?;
        Ok(
            Symbol {
                id,
                extends,
                pin_numbers,
                pin_names,
                exclude_from_sim,
                in_bom,
                on_board,
                properties,
                graphics,
                pins,
            },
        )
    }
}

} // verus!

verus! {

/// Exchanging two neighbouring keyed elements of a symbol that belong to different fields,
/// such as `(in_bom yes)` and `(on_board no)`, gives the same symbol.
pub proof fn lemma_symbol_order_independent(
    head: SExpr,
    id: SExpr,
    pre: Seq<SExpr>,
    a: SExpr,
    b: SExpr,
    tail: SExpr,
)
    requires
        classify(symbol_rules(), a) is Ok,
        classify(symbol_rules(), b) is Ok,
        classify(symbol_rules(), a)->Ok_0 != classify(symbol_rules(), b)->Ok_0,
        spec_symbol(
            SExpr::Cons(
                Box::new(head),
                Box::new(SExpr::Cons(Box::new(id), Box::new(list_of(pre + seq![a, b], tail)))),
            ),
        ) is Ok,
    ensures
        spec_symbol(
            SExpr::Cons(
                Box::new(head),
                Box::new(SExpr::Cons(Box::new(id), Box::new(list_of(pre + seq![b, a], tail)))),
            ),
        ) == spec_symbol(
            SExpr::Cons(
                Box::new(head),
                Box::new(SExpr::Cons(Box::new(id), Box::new(list_of(pre + seq![a, b], tail)))),
            ),
        ),
{
    let l1 = list_of(pre + seq![a, b], tail);
    let l2 = list_of(pre + seq![b, a], tail);
    lemma_keyed_order_independent("symbol", symbol_rules(), pre, a, b, tail);
    let es1 = scan("symbol", symbol_rules(), l1)->Ok_0;
    let es2 = scan("symbol", symbol_rules(), l2)->Ok_0;
    assert forall|k: int| 0 <= k < 9 implies slot(es1, k) == slot(es2, k) && elements_of(es1, k)
        == elements_of(es2, k) by {
        assert(elements_of(es1, k) == elements_of(es2, k));
    }
    let id_str = spec_str_head(SExpr::Cons(Box::new(id), Box::new(l1)))->Ok_0.0;
    assert(spec_symbol_fields(id_str, es1) == spec_symbol_fields(id_str, es2));
}

/// No graphical style is named like an electrical type.
proof fn lemma_style_is_not_type(s: Seq<char>)
    requires
        graphical_style_named(s) is Some,
    ensures
        electrical_type_named(s) is None,
{
    reveal_strlit("input");
    reveal_strlit("output");
    reveal_strlit("bidirectional");
    reveal_strlit("tri_state");
    reveal_strlit("passive");
    reveal_strlit("free");
    reveal_strlit("unspecified");
    reveal_strlit("power_in");
    reveal_strlit("power_out");
    reveal_strlit("open_collector");
    reveal_strlit("open_emitter");
    reveal_strlit("no_connect");
    if s == "line"@ {
        reveal_strlit("line");
        assert(s.len() == 4 && s[0] == 'l');
    } else if s == "inverted"@ {
        reveal_strlit("inverted");
        assert(s.len() == 8 && s[0] == 'i');
    } else if s == "clock"@ {
        reveal_strlit("clock");
        assert(s.len() == 5 && s[0] == 'c');
    } else if s == "inverted_clock"@ {
        reveal_strlit("inverted_clock");
        assert(s.len() == 14 && s[0] == 'i');
    } else if s == "input_low"@ {
        reveal_strlit("input_low");
        assert(s.len() == 9 && s[0] == 'i');
    } else if s == "clock_low"@ {
        reveal_strlit("clock_low");
        assert(s.len() == 9 && s[0] == 'c');
    } else if s == "output_low"@ {
        reveal_strlit("output_low");
        assert(s.len() == 10 && s[0] == 'o');
    } else if s == "edge_clock_high"@ {
        reveal_strlit("edge_clock_high");
        assert(s.len() == 15 && s[0] == 'e');
    } else if s == "non_logic"@ {
        reveal_strlit("non_logic");
        assert(s.len() == 9 && s[0] == 'n');
    }
}

/// Positional strictness: a pin whose graphical style comes before its electrical type is
/// refused at the first of them, never read with the two exchanged.
pub proof fn lemma_pin_positions_strict(head: SExpr, et: String, gs: String, rest: SExpr)
    requires
        is_symbol(head, "pin"),
        electrical_type_named(et@) is Some,
        graphical_style_named(gs@) is Some,
    ensures
        spec_pin(
            SExpr::Cons(
                Box::new(head),
                Box::new(
                    SExpr::Cons(
                        Box::new(SExpr::Symbol(gs)),
                        Box::new(SExpr::Cons(Box::new(SExpr::Symbol(et)), Box::new(rest))),
                    ),
                ),
            ),
        ) == Err::<SymbolPin, ParseError>(
            ParseError::ExpectedEnumSymbol(SExpr::Symbol(gs), ELECTRICAL_TYPE_SYMBOLS),
        ),
{
    lemma_style_is_not_type(gs@);
}

/// Missing required field: a pin whose other parts decode but which has no `number` element
/// is refused with `MissingField("pin", "number", ...)`.
pub proof fn lemma_pin_without_number(
    e: SExpr,
    electrical_type: SymbolPinElectricalType,
    graphical_style: SymbolPinGraphicalStyle,
    rest: SExpr,
)
    requires
        scan("pin", pin_rules(), rest) is Ok,
        ({
            let es = scan("pin", pin_rules(), rest)->Ok_0;
            &&& slot(es, 0) is Some && spec_position(slot(es, 0)->Some_0) is Ok
            &&& slot(es, 1) is Some && spec_length_nm(slot(es, 1)->Some_0) is Ok
            &&& slot(es, 2) is Some && spec_pin_name(slot(es, 2)->Some_0) is Ok
            &&& slot(es, 3) is None
        }),
    ensures
        spec_pin_fields(e, electrical_type, graphical_style, rest) == Err::<SymbolPin, ParseError>(
            ParseError::MissingField("pin", "number", e),
        ),
{
    let es = scan("pin", pin_rules(), rest)->Ok_0;
    lemma_missing_reported("pin", pin_rules(), es, e, 3);
}

} // verus!

verus! {

/// Missing required field of an arc: when its elements decode and the fields before `j` are
/// present, an absent field `j` is reported as missing, in declaration order whatever the order
/// of the input.
pub proof fn lemma_arc_missing_field(e: SExpr, j: int)
    requires
        spec_named_head(e, "arc") is Ok,
        scan("arc", arc_rules(), spec_named_head(e, "arc")->Ok_0) is Ok,
        ({
            let es = scan("arc", arc_rules(), spec_named_head(e, "arc")->Ok_0)->Ok_0;
            &&& slot(es, 0) is Some ==> spec_key_xy(slot(es, 0)->Some_0) is Ok
            &&& slot(es, 1) is Some ==> spec_key_xy(slot(es, 1)->Some_0) is Ok
            &&& slot(es, 2) is Some ==> spec_key_xy(slot(es, 2)->Some_0) is Ok
            &&& slot(es, 3) is Some ==> spec_stroke(slot(es, 3)->Some_0) is Ok
            &&& slot(es, 4) is Some ==> spec_fill(slot(es, 4)->Some_0) is Ok
            &&& 0 <= j < 5
            &&& slot(es, j) is None
            &&& forall|k: int| 0 <= k < j ==> slot(es, k) is Some
        }),
    ensures
        spec_arc(e) == Err::<SymbolGraphicArc, ParseError>(
            ParseError::MissingField("arc", arc_rules()[j].name, e),
        ),
{
    let es = scan("arc", arc_rules(), spec_named_head(e, "arc")->Ok_0)->Ok_0;
    assert forall|k: int|
        0 <= k < j && arc_rules()[k].multiplicity == Multiplicity::Required implies elements_of(
        es,
        k,
    ).len() > 0 by {
        assert(slot(es, k) is Some);
    }
    lemma_missing_reported("arc", arc_rules(), es, e, j);
}

/// Duplicate rejection in an arc: when every element names a field of the arc and the element
/// at `q` is the first to repeat one (seen before at `p`), the arc is refused with
/// `DuplicateField` naming that field and element.
pub proof fn lemma_arc_duplicate(head: SExpr, items: Seq<SExpr>, tail: SExpr, p: int, q: int)
    requires
        is_symbol(head, "arc"),
        forall|k: int| 0 <= k < items.len() ==> (#[trigger] classify(arc_rules(), items[k])) is Ok,
        0 <= p < q < items.len(),
        classify(arc_rules(), items[p]) == classify(arc_rules(), items[q]),
        forall|a: int, b: int|
            0 <= a < b < q ==> #[trigger] field_of(arc_rules(), items[a]) != #[trigger] field_of(
                arc_rules(),
                items[b],
            ),
    ensures
        spec_arc(SExpr::Cons(Box::new(head), Box::new(list_of(items, tail)))) == Err::<
            SymbolGraphicArc,
            ParseError,
        >(
            ParseError::DuplicateField(
                "arc",
                arc_rules()[field_of(arc_rules(), items[q])].name,
                items[q],
            ),
        ),
{
    lemma_classify_in_range(arc_rules(), items[q]);
    lemma_duplicate_rejected("arc", arc_rules(), items, tail, p, q);
}

} // verus!

verus! {

/// Missing required field of a pin: when its elements decode and the fields before `j` are
/// present, an absent field `j` (position, length, name or number) is reported as missing, in
/// declaration order whatever the order of the input.
pub proof fn lemma_pin_missing_field(
    e: SExpr,
    electrical_type: SymbolPinElectricalType,
    graphical_style: SymbolPinGraphicalStyle,
    rest: SExpr,
    j: int,
)
    requires
        scan("pin", pin_rules(), rest) is Ok,
        ({
            let es = scan("pin", pin_rules(), rest)->Ok_0;
            &&& slot(es, 0) is Some ==> spec_position(slot(es, 0)->Some_0) is Ok
            &&& slot(es, 1) is Some ==> spec_length_nm(slot(es, 1)->Some_0) is Ok
            &&& slot(es, 2) is Some ==> spec_pin_name(slot(es, 2)->Some_0) is Ok
            &&& slot(es, 3) is Some ==> spec_pin_number(slot(es, 3)->Some_0) is Ok
            &&& 0 <= j < 4
            &&& slot(es, j) is None
            &&& forall|k: int| 0 <= k < j ==> slot(es, k) is Some
        }),
    ensures
        spec_pin_fields(e, electrical_type, graphical_style, rest) == Err::<SymbolPin, ParseError>(
            ParseError::MissingField("pin", pin_rules()[j].name, e),
        ),
{
    let es = scan("pin", pin_rules(), rest)->Ok_0;
    assert forall|k: int|
        0 <= k < j && pin_rules()[k].multiplicity == Multiplicity::Required implies elements_of(
        es,
        k,
    ).len() > 0 by {
        assert(slot(es, k) is Some);
    }
    lemma_missing_reported("pin", pin_rules(), es, e, j);
}

} // verus!
