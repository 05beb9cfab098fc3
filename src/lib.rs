//! Schema-driven decoding of KiCad's parenthesised text formats into typed records.
//!
//! The input is a symbolic-expression tree ([`SExpr`]) produced by an outside reader. Small
//! fixed-shape records are matched positionally by the engine in `positional`, or from the
//! single steps in `expect`; larger records are matched by key with the engine in `keyed`,
//! which assigns each element to a field of the record's schema, refuses unknown keys and
//! repeated singular fields, and reports the first missing required field. Each decoder's
//! result, success or error, is pinned down by a `spec_` function, and the general properties
//! of the matching rules are proved as lemmas.
mod coerce;
mod color;
mod decimal_text;
mod error;
mod expect;
mod geometry;
mod identifier;
mod keyed;
mod paper;
mod positional;
mod schematic;
mod sexpr;
mod style;
mod symbol;
mod text;
mod title_block;
mod units;

pub use coerce::{
    coerce, lemma_exchanged_leaves_refused, spec_category, spec_coerce, LeafValue, TypeCategory,
};
pub use color::{spec_color, Color};
pub use decimal_text::spec_parse_decimal;
pub use error::ParseError;
pub use expect::{
    expect_bool, expect_cons, expect_float_end, expect_float_head, expect_int_end,
    expect_int_head, expect_named_head, expect_null, expect_opt_float_end, expect_str_end,
    expect_str_head, expect_symbol, expect_symbol_end, expect_symbol_head, spec_bool,
    spec_expect_cons, spec_expect_null, spec_expect_symbol, spec_float_head, spec_int_head,
    spec_named_head, spec_str_head, spec_symbol_head,
};
pub use geometry::{
    lemma_xy_prefix, spec_xy_prefix, xy_prefix,
    lemma_position_round_trip, spec_encode_xy, spec_points, spec_position, spec_size,
    spec_size_from_mm, spec_xy, Offset, Points, Position, Property, Size,
};
pub use identifier::{spec_uuid_from, uuid_value, Uuid};
pub use keyed::{
    check_required, classify, decode_all, elements, lemma_duplicate_rejected,
    lemma_keyed_order_independent, lemma_missing_reported, lemma_unknown_key_rejected, list_of,
    scan, scan_keyed, slot, slot_of, spec_required, Decode, FieldRule, Multiplicity,
};
pub use paper::{paper_size_named, spec_paper, Paper, PaperOrientation, PaperSize};
pub use positional::{
    match_positional, spec_match_positional, well_formed, Matched, Positional,
};
pub use schematic::{
    schematic_is, spec_bus_entry, spec_junction, spec_label, spec_label_shape, spec_no_connect,
    spec_schematic, spec_text, Schematic, SchematicBus, SchematicBusEntry, SchematicGlobalLabel,
    SchematicGlobalLabelShape, SchematicGraphicPolyline, SchematicGraphicText, SchematicJunction,
    SchematicLabel, SchematicNoConnect, SchematicView, SchematicWire,
};
pub use sexpr::{list_items, list_len, Decimal, SExpr};
pub use style::{
    spec_fill, spec_fill_type, spec_line_style, spec_stroke, Fill, FillType, LineStyle, Stroke,
};
pub use symbol::{
    lemma_arc_duplicate, lemma_arc_missing_field, lemma_pin_missing_field,
    lemma_pin_positions_strict, lemma_pin_without_number, lemma_symbol_order_independent,
    spec_arc, spec_electrical_type, spec_graphical_style, spec_pin, spec_pin_name,
    spec_pin_names, spec_pin_number, spec_pin_numbers, spec_property, spec_symbol, symbol_is,
    Symbol, SymbolGraphic, SymbolGraphicArc, SymbolGraphicBezier, SymbolGraphicCircle,
    SymbolGraphicPolyline, SymbolGraphicRectangle, SymbolGraphicText, SymbolPin,
    SymbolPinElectricalType, SymbolPinGraphicalStyle, SymbolPinName, SymbolPinNameDefaults,
    SymbolPinNumber, SymbolPinNumberDefaults, SymbolProperty, SymbolView,
};
pub use text::{
    spec_effects, spec_font, spec_justify, Font, HorizJustify, TextEffects, TextJustify,
    VertJustify,
};
pub use title_block::{spec_title_block, title_block_is, TitleBlock, TitleBlockView};
pub use units::{
    lemma_mm_round_trip, mm_to_clamped_unsigned_nm, mm_to_nm, mm_to_unsigned_nm, nm_to_mm,
    spec_mm_to_nm, spec_mm_to_unsigned_nm, spec_nm_to_mm, spec_shift_mm,
};
