//! Schematic files and their items.
use crate::color::{spec_color, Color};
use crate::error::ParseError;
use crate::expect::{
    expect_float_end, expect_int_end, expect_named_head, expect_str_end,
    expect_str_head, expect_symbol_end, spec_float_end, spec_int_end,
    spec_named_head, spec_str_end, spec_str_head, spec_symbol_end, text_is,
};
use crate::geometry::{spec_position, spec_size, Points, Position, Size};
use crate::identifier::{spec_uuid_from, uuid_value, Uuid};
use crate::keyed::{
    check_required, convert_all, convert_opt, decode_all, Decode, elements, elements_of, entries_view,
    lemma_required_present, rule, scan,
    scan_keyed, slot, slot_of, spec_required, tail, tail_of, FieldRule, Multiplicity,
};
use crate::paper::{spec_paper, Paper};
use crate::sexpr::SExpr;
use crate::style::{spec_stroke, Stroke};
use crate::symbol::{spec_symbol, symbol_is, Symbol, SymbolProperty, SymbolView};
use crate::text::{spec_effects, spec_key_str, TextEffects};
use crate::title_block::{
    optional_text, spec_title_block, text_or_empty, title_block_is, TitleBlock, TitleBlockView,
};
use crate::units::{clamp_u64, mm_to_clamped_unsigned_nm, spec_shift_mm};
use vstd::prelude::*;

verus! {

/// A wire junction `(junction (at ...) (diameter <mm>) (color ...) (uuid ...))`.
#[derive(Clone, Copy, Debug, PartialEq, Eq, Structural)]
pub struct SchematicJunction {
    pub position: Position,
    /// Diameter in nanometres.
    pub diameter: u64,
    pub color: Color,
    pub uuid: Uuid,
}

/// An unconnected pin marker `(no_connect (at ...) (uuid ...))`.
#[derive(Clone, Copy, Debug, PartialEq, Eq, Structural)]
pub struct SchematicNoConnect {
    pub position: Position,
    pub uuid: Uuid,
}

/// A bus entry `(bus_entry (at ...) (size ...) (stroke ...) (uuid ...))`.
#[derive(Clone, Copy, Debug, PartialEq, Eq, Structural)]
pub struct SchematicBusEntry {
    pub position: Position,
    /// The size, which defines the end point.
    pub size: Size,
    pub stroke: Stroke,
    pub uuid: Uuid,
}

/// A net label `(label "<net>" (at ...) (effects ...) (uuid ...))`.
#[derive(Clone, Debug, PartialEq)]
pub struct SchematicLabel {
    pub text: String,
    pub position: Position,
    pub text_effects: TextEffects,
    pub uuid: Uuid,
}

/// A text item `(text "<text>" (at ...) (effects ...) (uuid ...))`.
#[derive(Clone, Debug, PartialEq)]
pub struct SchematicGraphicText {
    pub text: String,
    pub position: Position,
    pub text_effects: TextEffects,
    pub uuid: Uuid,
}

/// A wire.
#[derive(Clone, Debug, PartialEq)]
pub struct SchematicWire {
    pub points: Points,
    pub stroke: Stroke,
    pub uuid: Uuid,
}

/// A bus.
#[derive(Clone, Debug, PartialEq)]
pub struct SchematicBus {
    pub points: Points,
    pub stroke: Stroke,
    pub uuid: Uuid,
}

/// A graphical polyline.
#[derive(Clone, Debug, PartialEq)]
pub struct SchematicGraphicPolyline {
    pub points: Points,
    pub stroke: Stroke,
    pub uuid: Uuid,
}

/// The shape of a global label.
#[derive(Clone, Copy, Debug, PartialEq, Eq, Structural)]
pub enum SchematicGlobalLabelShape {
    Input,
    Output,
    Bidirectional,
    TriState,
    Passive,
}

/// A global label, visible across all sheets of a design.
#[derive(Clone, Debug, PartialEq)]
pub struct SchematicGlobalLabel {
    pub text: String,
    pub shape: SchematicGlobalLabelShape,
    pub fields_autoplaced: bool,
    pub position: Position,
    pub text_effects: TextEffects,
    pub uuid: Uuid,
    pub properties: Vec<SymbolProperty>,
}

/// A schematic file `(kicad_sch ...)`.
#[derive(Clone, Debug, PartialEq)]
pub struct Schematic {
    /// The format version, a YYYYMMDD integer.
    pub version: Option<i64>,
    /// The program that wrote the file; empty when not given.
    pub generator: String,
    /// The version of that program; empty when not given.
    pub generator_version: String,
    pub uuid: Option<Uuid>,
    pub paper: Option<Paper>,
    pub title_block: Option<TitleBlock>,
    /// The library symbols used.
    pub lib_symbols: Vec<Symbol>,
    pub junctions: Vec<SchematicJunction>,
    pub no_connects: Vec<SchematicNoConnect>,
    pub bus_entries: Vec<SchematicBusEntry>,
    pub wires: Vec<SchematicWire>,
    pub buses: Vec<SchematicBus>,
    pub polylines: Vec<SchematicGraphicPolyline>,
    pub texts: Vec<SchematicGraphicText>,
    pub labels: Vec<SchematicLabel>,
    pub global_labels: Vec<SchematicGlobalLabel>,
}

/// The accepted global label shapes.
pub const LABEL_SHAPE_SYMBOLS: &'static str = "input, output, bidirectional, tri_state, passive";

/// The global label shape named `s`.
pub open spec fn label_shape_named(s: Seq<char>) -> Option<SchematicGlobalLabelShape> {
    if s == "input"@ {
        Some(SchematicGlobalLabelShape::Input)
    } else if s == "output"@ {
        Some(SchematicGlobalLabelShape::Output)
    } else if s == "bidirectional"@ {
        Some(SchematicGlobalLabelShape::Bidirectional)
    } else if s == "tri_state"@ {
        Some(SchematicGlobalLabelShape::TriState)
    } else if s == "passive"@ {
        Some(SchematicGlobalLabelShape::Passive)
    } else {
        None
    }
}

/// The decoding of `(shape <shape>)`.
pub open spec fn spec_label_shape(e: SExpr) -> Result<SchematicGlobalLabelShape, ParseError> {
    match spec_named_head(e, "shape") {
        Err(err) => Err(err),
        Ok(rest) => match spec_symbol_end(rest) {
            Err(err) => Err(err),
            Ok(s) => match label_shape_named(s@) {
                Some(t) => Ok(t),
                None => Err(ParseError::ExpectedEnumSymbol(SExpr::Symbol(s), LABEL_SHAPE_SYMBOLS)),
            },
        },
    }
}

impl SchematicGlobalLabelShape {
    /// Decodes `(shape <shape>)`.
    pub fn try_from(e: &SExpr) -> (r: Result<SchematicGlobalLabelShape, ParseError>)
        ensures
            r == spec_label_shape(*e),
    {
        let rest = expect_named_head(e, "shape")?;
        let s = expect_symbol_end(rest)?;
        if text_is(&s, "input") {
            Ok(SchematicGlobalLabelShape::Input)
        } else if text_is(&s, "output") {
            Ok(SchematicGlobalLabelShape::Output)
        } else if text_is(&s, "bidirectional") {
            Ok(SchematicGlobalLabelShape::Bidirectional)
        } else if text_is(&s, "tri_state") {
            Ok(SchematicGlobalLabelShape::TriState)
        } else if text_is(&s, "passive") {
            Ok(SchematicGlobalLabelShape::Passive)
        } else {
            Err(ParseError::ExpectedEnumSymbol(SExpr::Symbol(s), LABEL_SHAPE_SYMBOLS))
        }
    }
}

/// The identifier that closes a keyed element, as in `(uuid "...")`.
pub open spec fn spec_key_uuid(el: SExpr) -> Result<Uuid, ParseError> {
    match spec_str_end(tail_of(el)) {
        Err(err) => Err(err),
        Ok(text) => spec_uuid_from(text, uuid_value(text@)),
    }
}

/// Reads the identifier that closes the keyed element `el`.
pub fn key_uuid(el: &SExpr) -> (r: Result<Uuid, ParseError>)
    ensures
        r == spec_key_uuid(*el),
{
    let text = expect_str_end(tail(el))?;
    Uuid::parse(&text)
}

/// A diameter in millimetres that closes a keyed element, as nanometres; a negative one
/// becomes zero.
pub open spec fn spec_key_diameter(el: SExpr) -> Result<u64, ParseError> {
    match spec_float_end(tail_of(el)) {
        Err(err) => Err(err),
        Ok(d) => Ok(clamp_u64(spec_shift_mm(d))),
    }
}

/// The fields of a junction.
pub open spec fn junction_rules() -> Seq<FieldRule> {
    seq![
        rule("at", "at", Multiplicity::Required),
        rule("diameter", "diameter", Multiplicity::Required),
        rule("color", "color", Multiplicity::Required),
        rule("uuid", "uuid", Multiplicity::Required),
    ]
}

fn junction_rules_exec() -> (r: Vec<FieldRule>)
    ensures
        r@ == junction_rules(),
{
    let r = vec![
        FieldRule { key: "at", name: "at", multiplicity: Multiplicity::Required },
        FieldRule { key: "diameter", name: "diameter", multiplicity: Multiplicity::Required },
        FieldRule { key: "color", name: "color", multiplicity: Multiplicity::Required },
        FieldRule { key: "uuid", name: "uuid", multiplicity: Multiplicity::Required },
    ];
    assert(r@ =~= junction_rules());
    r
}

/// The decoding of a junction.
pub open spec fn spec_junction(e: SExpr) -> Result<SchematicJunction, ParseError> {
    match spec_named_head(e, "junction") {
        Err(err) => Err(err),
        Ok(rest) => match scan("junction", junction_rules(), rest) {
            Err(err) => Err(err),
            Ok(es) => match convert_opt(slot(es, 0), |x| spec_position(x)) {
                Err(err) => Err(err),
                Ok(position) => match convert_opt(slot(es, 1), |x| spec_key_diameter(x)) {
                    Err(err) => Err(err),
                    Ok(diameter) => match convert_opt(slot(es, 2), |x| spec_color(x)) {
                        Err(err) => Err(err),
                        Ok(color) => match convert_opt(slot(es, 3), |x| spec_key_uuid(x)) {
                            Err(err) => Err(err),
                            Ok(uuid) => match spec_required("junction", junction_rules(), es, e) {
                                Err(err) => Err(err),
                                Ok(_) => Ok(
                                    SchematicJunction {
                                        position: position.unwrap(),
                                        diameter: diameter.unwrap(),
                                        color: color.unwrap(),
                                        uuid: uuid.unwrap(),
                                    },
                                ),
                            },
                        },
                    },
                },
            },
        },
    }
}

impl SchematicJunction {
    /// Decodes a junction; all of its fields are required.
    pub fn try_from(e: &SExpr) -> (r: Result<SchematicJunction, ParseError>)
        ensures
            r == spec_junction(*e),
    {
        let rest = expect_named_head(e, "junction")?;
        let rules = junction_rules_exec();
        let entries = scan_keyed("junction", &rules, rest)?;
        let position = match slot_of(&entries, 0) {
            Some(el) => Some(Position::try_from(el)?),
            None => None,
        };
        let diameter = match slot_of(&entries, 1) {
            Some(el) => Some(mm_to_clamped_unsigned_nm(expect_float_end(tail(el))?)),
            None => None,
        };
        let color = match slot_of(&entries, 2) {
            Some(el) => Some(Color::try_from(el)?),
            None => None,
        };
        let uuid = match slot_of(&entries, 3) {
            Some(el) => Some(key_uuid(el)?),
            None => None,
        };
        check_required("junction", &rules, &entries, e)?;
        proof {
            lemma_required_present(rules@, entries_view(entries@), 0);
            lemma_required_present(rules@, entries_view(entries@), 1);
            lemma_required_present(rules@, entries_view(entries@), 2);
            lemma_required_present(rules@, entries_view(entries@), 3);
        }
        match (position, diameter, color, uuid) {
            (Some(position), Some(diameter), Some(color), Some(uuid)) => Ok(
                SchematicJunction { position, diameter, color, uuid },
            ),
            _ => vstd::pervasive::unreached(),
        }
    }
}

/// The fields of a no-connect marker.
pub open spec fn no_connect_rules() -> Seq<FieldRule> {
    seq![rule("at", "at", Multiplicity::Required), rule("uuid", "uuid", Multiplicity::Required)]
}

fn no_connect_rules_exec() -> (r: Vec<FieldRule>)
    ensures
        r@ == no_connect_rules(),
{
    let r = vec![
        FieldRule { key: "at", name: "at", multiplicity: Multiplicity::Required },
        FieldRule { key: "uuid", name: "uuid", multiplicity: Multiplicity::Required },
    ];
    assert(r@ =~= no_connect_rules());
    r
}

/// The decoding of a no-connect marker.
pub open spec fn spec_no_connect(e: SExpr) -> Result<SchematicNoConnect, ParseError> {
    match spec_named_head(e, "no_connect") {
        Err(err) => Err(err),
        Ok(rest) => match scan("no_connect", no_connect_rules(), rest) {
            Err(err) => Err(err),
            Ok(es) => match convert_opt(slot(es, 0), |x| spec_position(x)) {
                Err(err) => Err(err),
                Ok(position) => match convert_opt(slot(es, 1), |x| spec_key_uuid(x)) {
                    Err(err) => Err(err),
                    Ok(uuid) => match spec_required("no_connect", no_connect_rules(), es, e) {
                        Err(err) => Err(err),
                        Ok(_) => Ok(
                            SchematicNoConnect { position: position.unwrap(), uuid: uuid.unwrap() },
                        ),
                    },
                },
            },
        },
    }
}

impl SchematicNoConnect {
    /// Decodes a no-connect marker; both fields are required.
    pub fn try_from(e: &SExpr) -> (r: Result<SchematicNoConnect, ParseError>)
        ensures
            r == spec_no_connect(*e),
    {
        let rest = expect_named_head(e, "no_connect")?;
        let rules = no_connect_rules_exec();
        let entries = scan_keyed("no_connect", &rules, rest)?;
        let position = match slot_of(&entries, 0) {
            Some(el) => Some(Position::try_from(el)?),
            None => None,
        };
        let uuid = match slot_of(&entries, 1) {
            Some(el) => Some(key_uuid(el)?),
            None => None,
        };
        check_required("no_connect", &rules, &entries, e)?;
        proof {
            lemma_required_present(rules@, entries_view(entries@), 0);
            lemma_required_present(rules@, entries_view(entries@), 1);
        }
        match (position, uuid) {
            (Some(position), Some(uuid)) => Ok(SchematicNoConnect { position, uuid }),
            _ => vstd::pervasive::unreached(),
        }
    }
}

/// The fields of a bus entry.
pub open spec fn bus_entry_rules() -> Seq<FieldRule> {
    seq![
        rule("at", "at", Multiplicity::Required),
        rule("size", "size", Multiplicity::Required),
        rule("stroke", "stroke", Multiplicity::Required),
        rule("uuid", "uuid", Multiplicity::Required),
    ]
}

fn bus_entry_rules_exec() -> (r: Vec<FieldRule>)
    ensures
        r@ == bus_entry_rules(),
{
    let r = vec![
        FieldRule { key: "at", name: "at", multiplicity: Multiplicity::Required },
        FieldRule { key: "size", name: "size", multiplicity: Multiplicity::Required },
        FieldRule { key: "stroke", name: "stroke", multiplicity: Multiplicity::Required },
        FieldRule { key: "uuid", name: "uuid", multiplicity: Multiplicity::Required },
    ];
    assert(r@ =~= bus_entry_rules());
    r
}

/// The decoding of a bus entry.
pub open spec fn spec_bus_entry(e: SExpr) -> Result<SchematicBusEntry, ParseError> {
    match spec_named_head(e, "bus_entry") {
        Err(err) => Err(err),
        Ok(rest) => match scan("bus_entry", bus_entry_rules(), rest) {
            Err(err) => Err(err),
            Ok(es) => match convert_opt(slot(es, 0), |x| spec_position(x)) {
                Err(err) => Err(err),
                Ok(position) => match convert_opt(slot(es, 1), |x| spec_size(x)) {
                    Err(err) => Err(err),
                    Ok(size) => match convert_opt(slot(es, 2), |x| spec_stroke(x)) {
                        Err(err) => Err(err),
                        Ok(stroke) => match convert_opt(slot(es, 3), |x| spec_key_uuid(x)) {
                            Err(err) => Err(err),
                            Ok(uuid) => match spec_required(
                                "bus_entry",
                                bus_entry_rules(),
                                es,
                                e,
                            ) {
                                Err(err) => Err(err),
                                Ok(_) => Ok(
                                    SchematicBusEntry {
                                        position: position.unwrap(),
                                        size: size.unwrap(),
                                        stroke: stroke.unwrap(),
                                        uuid: uuid.unwrap(),
                                    },
                                ),
                            },
                        },
                    },
                },
            },
        },
    }
}

impl SchematicBusEntry {
    /// Decodes a bus entry; all of its fields are required.
    pub fn try_from(e: &SExpr) -> (r: Result<SchematicBusEntry, ParseError>)
        ensures
            r == spec_bus_entry(*e),
    {
        let rest = expect_named_head(e, "bus_entry")?;
        let rules = bus_entry_rules_exec();
        let entries = scan_keyed("bus_entry", &rules, rest)?;
        let position = match slot_of(&entries, 0) {
            Some(el) => Some(Position::try_from(el)?),
            None => None,
        };
        let size = match slot_of(&entries, 1) {
            Some(el) => Some(Size::try_from(el)?),
            None => None,
        };
        let stroke = match slot_of(&entries, 2) {
            Some(el) => Some(Stroke::try_from(el)?),
            None => None,
        };
        let uuid = match slot_of(&entries, 3) {
            Some(el) => Some(key_uuid(el)?),
            None => None,
        };
        check_required("bus_entry", &rules, &entries, e)?;
        proof {
            lemma_required_present(rules@, entries_view(entries@), 0);
            lemma_required_present(rules@, entries_view(entries@), 1);
            lemma_required_present(rules@, entries_view(entries@), 2);
            lemma_required_present(rules@, entries_view(entries@), 3);
        }
        match (position, size, stroke, uuid) {
            (Some(position), Some(size), Some(stroke), Some(uuid)) => Ok(
                SchematicBusEntry { position, size, stroke, uuid },
            ),
            _ => vstd::pervasive::unreached(),
        }
    }
}

/// The fields of a label or text item.
pub open spec fn label_item_rules() -> Seq<FieldRule> {
    seq![
        rule("at", "at", Multiplicity::Required),
        rule("effects", "effects", Multiplicity::Required),
        rule("uuid", "uuid", Multiplicity::Required),
    ]
}

fn label_item_rules_exec() -> (r: Vec<FieldRule>)
    ensures
        r@ == label_item_rules(),
{
    let r = vec![
        FieldRule { key: "at", name: "at", multiplicity: Multiplicity::Required },
        FieldRule { key: "effects", name: "effects", multiplicity: Multiplicity::Required },
        FieldRule { key: "uuid", name: "uuid", multiplicity: Multiplicity::Required },
    ];
    assert(r@ =~= label_item_rules());
    r
}

/// The decoding of `(<head> "<text>" (at ...) (effects ...) (uuid ...))`.
pub open spec fn spec_label_item(e: SExpr, head: &'static str) -> Result<
    (String, Position, TextEffects, Uuid),
    ParseError,
> {
    match spec_named_head(e, head) {
        Err(err) => Err(err),
        Ok(rest) => match spec_str_head(rest) {
            Err(err) => Err(err),
            Ok((text, rest)) => match scan(head, label_item_rules(), rest) {
                Err(err) => Err(err),
                Ok(es) => match convert_opt(slot(es, 0), |x| spec_position(x)) {
                    Err(err) => Err(err),
                    Ok(position) => match convert_opt(slot(es, 1), |x| spec_effects(x)) {
                        Err(err) => Err(err),
                        Ok(effects) => match convert_opt(slot(es, 2), |x| spec_key_uuid(x)) {
                            Err(err) => Err(err),
                            Ok(uuid) => match spec_required(head, label_item_rules(), es, e) {
                                Err(err) => Err(err),
                                Ok(_) => Ok(
                                    (text, position.unwrap(), effects.unwrap(), uuid.unwrap()),
                                ),
                            },
                        },
                    },
                },
            },
        },
    }
}

fn label_item(e: &SExpr, head: &'static str) -> (r: Result<
    (String, Position, TextEffects, Uuid),
    ParseError,
>)
    ensures
        r == spec_label_item(*e, head),
{
    let rest = expect_named_head(e, head)?;
    let (text, rest) = expect_str_head(rest)?;
    let rules = label_item_rules_exec();
    let entries = scan_keyed(head, &rules, rest)?;
    let position = match slot_of(&entries, 0) {
        Some(el) => Some(Position::try_from(el)?),
        None => None,
    };
    let effects = match slot_of(&entries, 1) {
        Some(el) => Some(TextEffects::try_from(el)?),
        None => None,
    };
    let uuid = match slot_of(&entries, 2) {
        Some(el) => Some(key_uuid(el)?),
        None => None,
    };
    check_required(head, &rules, &entries, e)?;
    proof {
        lemma_required_present(rules@, entries_view(entries@), 0);
        lemma_required_present(rules@, entries_view(entries@), 1);
        lemma_required_present(rules@, entries_view(entries@), 2);
    }
    match (position, effects, uuid) {
        (Some(position), Some(effects), Some(uuid)) => Ok((text, position, effects, uuid)),
        _ => vstd::pervasive::unreached(),
    }
}

/// The decoding of a net label.
pub open spec fn spec_label(e: SExpr) -> Result<SchematicLabel, ParseError> {
    match spec_label_item(e, "label") {
        Err(err) => Err(err),
        Ok((text, position, text_effects, uuid)) => Ok(
            SchematicLabel { text, position, text_effects, uuid },
        ),
    }
}

/// The decoding of a text item.
pub open spec fn spec_text(e: SExpr) -> Result<SchematicGraphicText, ParseError> {
    match spec_label_item(e, "text") {
        Err(err) => Err(err),
        Ok((text, position, text_effects, uuid)) => Ok(
            SchematicGraphicText { text, position, text_effects, uuid },
        ),
    }
}

impl SchematicLabel {
    /// Decodes `(label "<net>" (at ...) (effects ...) (uuid ...))`.
    pub fn try_from(e: &SExpr) -> (r: Result<SchematicLabel, ParseError>)
        ensures
            r == spec_label(*e),
    {
        let (text, position, text_effects, uuid) = label_item(e, "label")?;
        Ok(SchematicLabel { text, position, text_effects, uuid })
    }
}

impl SchematicGraphicText {
    /// Decodes `(text "<text>" (at ...) (effects ...) (uuid ...))`.
    pub fn try_from(e: &SExpr) -> (r: Result<SchematicGraphicText, ParseError>)
        ensures
            r == spec_text(*e),
    {
        let (text, position, text_effects, uuid) = label_item(e, "text")?;
        Ok(SchematicGraphicText { text, position, text_effects, uuid })
    }
}

} // verus!

verus! {

impl Decode for SchematicJunction {
    open spec fn spec_decode(e: SExpr) -> Result<SchematicJunction, ParseError> {
        spec_junction(e)
    }

    fn decode(e: &SExpr) -> (r: Result<SchematicJunction, ParseError>) {
        SchematicJunction::try_from(e)
    }
}

impl Decode for SchematicNoConnect {
    open spec fn spec_decode(e: SExpr) -> Result<SchematicNoConnect, ParseError> {
        spec_no_connect(e)
    }

    fn decode(e: &SExpr) -> (r: Result<SchematicNoConnect, ParseError>) {
        SchematicNoConnect::try_from(e)
    }
}

impl Decode for SchematicBusEntry {
    open spec fn spec_decode(e: SExpr) -> Result<SchematicBusEntry, ParseError> {
        spec_bus_entry(e)
    }

    fn decode(e: &SExpr) -> (r: Result<SchematicBusEntry, ParseError>) {
        SchematicBusEntry::try_from(e)
    }
}

impl Decode for SchematicGraphicText {
    open spec fn spec_decode(e: SExpr) -> Result<SchematicGraphicText, ParseError> {
        spec_text(e)
    }

    fn decode(e: &SExpr) -> (r: Result<SchematicGraphicText, ParseError>) {
        SchematicGraphicText::try_from(e)
    }
}

impl Decode for SchematicLabel {
    open spec fn spec_decode(e: SExpr) -> Result<SchematicLabel, ParseError> {
        spec_label(e)
    }

    fn decode(e: &SExpr) -> (r: Result<SchematicLabel, ParseError>) {
        SchematicLabel::try_from(e)
    }
}

/// The symbols of the list `v`, each one decoded in order.
pub open spec fn spec_symbol_list(v: SExpr) -> Result<Seq<SymbolView>, ParseError>
    decreases v,
{
    match v {
        SExpr::Null => Ok(Seq::empty()),
        SExpr::Cons(h, t) => match spec_symbol(*h) {
            Err(err) => Err(err),
            Ok(s) => match spec_symbol_list(*t) {
                Err(err) => Err(err),
                Ok(ss) => Ok(seq![s].add(ss)),
            },
        },
        _ => Err(ParseError::ExpectedList(v)),
    }
}

/// Whether the symbols `s` hold what `v` describes, one for one.
pub open spec fn symbols_are(s: Seq<Symbol>, v: Seq<SymbolView>) -> bool {
    s.len() == v.len() && forall|i: int| 0 <= i < s.len() ==> symbol_is(#[trigger] s[i], v[i])
}

/// Decodes the symbols of the list `v`.
fn symbol_list(v: &SExpr) -> (r: Result<Vec<Symbol>, ParseError>)
    ensures
        match spec_symbol_list(*v) {
            Ok(vs) => r matches Ok(w) && symbols_are(w@, vs),
            Err(err) => r matches Err(e2) && e2 == err,
        },
{
    let mut out: Vec<Symbol> = Vec::new();
    let ghost mut views: Seq<SymbolView> = Seq::empty();
    let mut cur = v;
    proof {
        match spec_symbol_list(*v) {
            Ok(ss) => assert(views.add(ss) =~= ss),
            Err(_) => {},
        }
    }
    while !matches!(cur, SExpr::Null)
        invariant
            symbols_are(out@, views),
            spec_symbol_list(*v) == match spec_symbol_list(*cur) {
                Ok(ss) => Ok(views.add(ss)),
                Err(err) => Err::<Seq<SymbolView>, ParseError>(err),
            },
        decreases cur,
    {
        match cur {
            SExpr::Cons(h, t) => {
                let s = match Symbol::try_from(&**h) {
                    Ok(s) => s,
                    Err(err) => {
                        assert(spec_symbol_list(*cur) == Err::<Seq<SymbolView>, ParseError>(err));
                        return Err(err);
                    },
                };
                let ghost sv = spec_symbol(**h)->Ok_0;
                let ghost before = views;
                let ghost before_out = out@;
                out.push(s);
                proof {
                    views = views.push(sv);
                    match spec_symbol_list(**t) {
                        Ok(ss) => assert(before.add(seq![sv].add(ss)) =~= views.add(ss)),
                        Err(_) => {},
                    }
                    assert forall|i: int| 0 <= i < out@.len() implies symbol_is(
                        #[trigger] out@[i],
                        views[i],
                    ) by {
                        if i < out@.len() - 1 {
                            assert(out@[i] == before_out[i]);
                        }
                    }
                }
                cur = &**t;
            },
            _ => {
                return Err(ParseError::ExpectedList(cur.copy()));
            },
        }
    }
    proof {
        assert(views.add(Seq::empty()) =~= views);
    }
    Ok(out)
}

/// What a decoded schematic holds.
pub struct SchematicView {
    pub version: Option<i64>,
    pub generator: Seq<char>,
    pub generator_version: Seq<char>,
    pub uuid: Option<Uuid>,
    pub paper: Option<Paper>,
    pub title_block: Option<TitleBlockView>,
    pub lib_symbols: Seq<SymbolView>,
    pub junctions: Seq<SchematicJunction>,
    pub no_connects: Seq<SchematicNoConnect>,
    pub bus_entries: Seq<SchematicBusEntry>,
    pub texts: Seq<SchematicGraphicText>,
    pub labels: Seq<SchematicLabel>,
}

/// Whether `s` holds what `v` describes; kinds of item that are not decoded stay empty.
pub open spec fn schematic_is(s: Schematic, v: SchematicView) -> bool {
    &&& s.version == v.version
    &&& s.generator@ == v.generator
    &&& s.generator_version@ == v.generator_version
    &&& s.uuid == v.uuid
    &&& s.paper == v.paper
    &&& match (s.title_block, v.title_block) {
        (Some(t), Some(tv)) => title_block_is(t, tv),
        (None, None) => true,
        _ => false,
    }
    &&& symbols_are(s.lib_symbols@, v.lib_symbols)
    &&& s.junctions@ == v.junctions
    &&& s.no_connects@ == v.no_connects
    &&& s.bus_entries@ == v.bus_entries
    &&& s.texts@ == v.texts
    &&& s.labels@ == v.labels
    &&& s.wires@.len() == 0
    &&& s.buses@.len() == 0
    &&& s.polylines@.len() == 0
    &&& s.global_labels@.len() == 0
}

/// The fields of a schematic.
pub open spec fn schematic_rules() -> Seq<FieldRule> {
    seq![
        rule("version", "version", Multiplicity::Optional),
        rule("generator", "generator", Multiplicity::Optional),
        rule("generator_version", "generator_version", Multiplicity::Optional),
        rule("uuid", "uuid", Multiplicity::Optional),
        rule("paper", "paper", Multiplicity::Optional),
        rule("title_block", "title_block", Multiplicity::Optional),
        rule("lib_symbols", "lib_symbols", Multiplicity::Optional),
        rule("junction", "junction", Multiplicity::Repeated),
        rule("no_connect", "no_connect", Multiplicity::Repeated),
        rule("bus_entry", "bus_entry", Multiplicity::Repeated),
        rule("text", "text", Multiplicity::Repeated),
        rule("label", "label", Multiplicity::Repeated),
    ]
}

fn schematic_rules_exec() -> (r: Vec<FieldRule>)
    ensures
        r@ == schematic_rules(),
{
    let r = vec![
        FieldRule { key: "version", name: "version", multiplicity: Multiplicity::Optional },
        FieldRule { key: "generator", name: "generator", multiplicity: Multiplicity::Optional },
        FieldRule { key: "generator_version", name: "generator_version", multiplicity: Multiplicity::Optional },
        FieldRule { key: "uuid", name: "uuid", multiplicity: Multiplicity::Optional },
        FieldRule { key: "paper", name: "paper", multiplicity: Multiplicity::Optional },
        FieldRule { key: "title_block", name: "title_block", multiplicity: Multiplicity::Optional },
        FieldRule { key: "lib_symbols", name: "lib_symbols", multiplicity: Multiplicity::Optional },
        FieldRule { key: "junction", name: "junction", multiplicity: Multiplicity::Repeated },
        FieldRule { key: "no_connect", name: "no_connect", multiplicity: Multiplicity::Repeated },
        FieldRule { key: "bus_entry", name: "bus_entry", multiplicity: Multiplicity::Repeated },
        FieldRule { key: "text", name: "text", multiplicity: Multiplicity::Repeated },
        FieldRule { key: "label", name: "label", multiplicity: Multiplicity::Repeated },
    ];
    assert(r@ =~= schematic_rules());
    r
}

/// The decoding of the repeated items of a schematic, after its singular fields.
pub open spec fn spec_schematic_items(es: Seq<(int, SExpr)>, head: SchematicView) -> Result<
    SchematicView,
    ParseError,
> {
    match convert_all(elements_of(es, 7), |x| SchematicJunction::spec_decode(x)) {
        Err(err) => Err(err),
        Ok(junctions) => match convert_all(
            elements_of(es, 8),
            |x| SchematicNoConnect::spec_decode(x),
        ) {
            Err(err) => Err(err),
            Ok(no_connects) => match convert_all(
                elements_of(es, 9),
                |x| SchematicBusEntry::spec_decode(x),
            ) {
                Err(err) => Err(err),
                Ok(bus_entries) => match convert_all(
                    elements_of(es, 10),
                    |x| SchematicGraphicText::spec_decode(x),
                ) {
                    Err(err) => Err(err),
                    Ok(texts) => match convert_all(
                        elements_of(es, 11),
                        |x| SchematicLabel::spec_decode(x),
                    ) {
                        Err(err) => Err(err),
                        Ok(labels) => Ok(
                            SchematicView {
                                junctions,
                                no_connects,
                                bus_entries,
                                texts,
                                labels,
                                ..head
                            },
                        ),
                    },
                },
            },
        },
    }
}

/// The decoding of a schematic.
pub open spec fn spec_schematic(e: SExpr) -> Result<SchematicView, ParseError> {
    match spec_named_head(e, "kicad_sch") {
        Err(err) => Err(err),
        Ok(rest) => match scan("kicad_sch", schematic_rules(), rest) {
            Err(err) => Err(err),
            Ok(es) => match convert_opt(slot(es, 0), |x| spec_int_end(tail_of(x))) {
                Err(err) => Err(err),
                Ok(version) => match convert_opt(slot(es, 1), |x| spec_key_str(x)) {
                    Err(err) => Err(err),
                    Ok(generator) => match convert_opt(slot(es, 2), |x| spec_key_str(x)) {
                        Err(err) => Err(err),
                        Ok(generator_version) => match convert_opt(
                            slot(es, 3),
                            |x| spec_key_uuid(x),
                        ) {
                            Err(err) => Err(err),
                            Ok(uuid) => match convert_opt(slot(es, 4), |x| spec_paper(x)) {
                                Err(err) => Err(err),
                                Ok(paper) => match convert_opt(
                                    slot(es, 5),
                                    |x| spec_title_block(x),
                                ) {
                                    Err(err) => Err(err),
                                    Ok(title_block) => match convert_opt(
                                        slot(es, 6),
                                        |x| spec_symbol_list(tail_of(x)),
                                    ) {
                                        Err(err) => Err(err),
                                        Ok(lib_symbols) => spec_schematic_items(
                                            es,
                                            SchematicView {
                                                version,
                                                generator: text_or_empty(generator),
                                                generator_version: text_or_empty(
                                                    generator_version,
                                                ),
                                                uuid,
                                                paper,
                                                title_block,
                                                lib_symbols: match lib_symbols {
                                                    Some(l) => l,
                                                    None => Seq::empty(),
                                                },
                                                junctions: Seq::empty(),
                                                no_connects: Seq::empty(),
                                                bus_entries: Seq::empty(),
                                                texts: Seq::empty(),
                                                labels: Seq::empty(),
                                            },
                                        ),
                                    },
                                },
                            },
                        },
                    },
                },
            },
        },
    }
}

impl Schematic {
    /// Decodes a schematic file `(kicad_sch ...)`; its elements may come in any order.
    pub fn try_from(e: &SExpr) -> (r: Result<Schematic, ParseError>)
        ensures
            match spec_schematic(*e) {
                Ok(v) => r matches Ok(s) && schematic_is(s, v),
                Err(err) => r matches Err(e2) && e2 == err,
            },
    {
        let rest = expect_named_head(e, "kicad_sch")?;
        let rules = schematic_rules_exec();
        let entries = scan_keyed("kicad_sch", &rules, rest)?;
        let version = match slot_of(&entries, 0) {
            Some(el) => Some(expect_int_end(tail(el))?),
            None => None,
        };
        let generator = optional_text(slot_of(&entries, 1))?;
        let generator_version = optional_text(slot_of(&entries, 2))?;
        let uuid = match slot_of(&entries, 3) {
            Some(el) => Some(key_uuid(el)?),
            None => None,
        };
        let paper = match slot_of(&entries, 4) {
            Some(el) => Some(Paper::try_from(el)?),
            None => None,
        };
        let title_block = match slot_of(&entries, 5) {
            Some(el) => Some(TitleBlock::try_from(el)?),
            None => None,
        };
        let lib_symbols = match slot_of(&entries, 6) {
            Some(el) => symbol_list(tail(el))?,
            None => Vec::new(),
        };
        let junctions = decode_all::<SchematicJunction>(&elements(&entries, 7))?;
        let no_connects = decode_all::<SchematicNoConnect>(&elements(&entries, 8))?;
        let bus_entries = decode_all::<SchematicBusEntry>(&elements(&entries, 9))?;
        let texts = decode_all::<SchematicGraphicText>(&elements(&entries, 10))?;
        let labels = decode_all::<SchematicLabel>(&elements(&entries, 11))?;
        Ok(
            Schematic {
                version,
                generator,
                generator_version,
                uuid,
                paper,
                title_block,
                lib_symbols,
                junctions,
                no_connects,
                bus_entries,
                wires: Vec::new(),
                buses: Vec::new(),
                polylines: Vec::new(),
                texts,
                labels,
                global_labels: Vec::new(),
            },
        )
    }
}

} // verus!
