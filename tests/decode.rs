use kanga_kicad::{
    mm_to_nm, mm_to_unsigned_nm, nm_to_mm, Color, Decimal, Fill, FillType, Font, HorizJustify,
    LineStyle, Paper, PaperOrientation, PaperSize, ParseError, Points, Position, SExpr, Size,
    Stroke, Symbol, SymbolPin, SymbolPinElectricalType, SymbolPinGraphicalStyle,
    SymbolPinNameDefaults, SymbolPinNumberDefaults, TextEffects, TextJustify, TitleBlock,
    VertJustify,
};

fn sym(s: &str) -> SExpr {
    SExpr::symbol(s)
}

fn text(s: &str) -> SExpr {
    SExpr::string(s)
}

fn num(mantissa: i64, scale: u32) -> SExpr {
    SExpr::number(Decimal::new(mantissa, scale))
}

fn list(items: Vec<SExpr>) -> SExpr {
    SExpr::list(items)
}

fn effects() -> SExpr {
    list(vec![sym("effects"), list(vec![sym("font"), list(vec![sym("size"), num(127, 2), num(127, 2)])])])
}

fn pin_items(number: bool) -> Vec<SExpr> {
    let mut items = vec![
        sym("pin"),
        sym("passive"),
        sym("line"),
        list(vec![sym("at"), num(0, 0), num(381, 2), num(270, 0)]),
        list(vec![sym("length"), num(127, 2)]),
        list(vec![sym("name"), text("~"), effects()]),
    ];
    if number {
        items.push(list(vec![sym("number"), text("1"), effects()]));
    }
    items
}

#[test]
fn test_color() {
    let color = Color::try_from(&list(vec![sym("color"), num(1, 1), num(2, 1), num(3, 1), num(4, 1)])).unwrap();
    assert_eq!(color.red, Decimal::new(1, 1));
    assert_eq!(color.green, Decimal::new(2, 1));
    assert_eq!(color.blue, Decimal::new(3, 1));
    assert_eq!(color.alpha, Some(Decimal::new(4, 1)));

    let color = Color::try_from(&list(vec![sym("color"), num(1, 1), num(2, 1), num(3, 1)])).unwrap();
    assert_eq!(color.red, Decimal::new(1, 1));
    assert_eq!(color.green, Decimal::new(2, 1));
    assert_eq!(color.blue, Decimal::new(3, 1));
    assert!(color.alpha.is_none());
}

#[test]
fn color_with_trailing_value_is_refused() {
    let e = list(vec![sym("color"), num(1, 1), num(2, 1), num(3, 1), num(4, 1), num(5, 1)]);
    assert_eq!(Color::try_from(&e), Err(ParseError::ExpectedNil(list(vec![num(5, 1)]))));
}

#[test]
fn test_position() {
    let pos = Position::try_from(&list(vec![sym("at"), num(10, 1), num(20, 1), num(30, 1)])).unwrap();
    assert_eq!(pos.x, 1_000_000);
    assert_eq!(pos.y, 2_000_000);
    assert_eq!(pos.angle, Some(Decimal::new(30, 1)));

    let pos = Position::try_from(&list(vec![sym("at"), num(10, 1), num(20, 1)])).unwrap();
    assert_eq!(pos.x, 1_000_000);
    assert_eq!(pos.y, 2_000_000);
    assert!(pos.angle.is_none());
}

#[test]
fn test_points() {
    let e = list(vec![
        sym("pts"),
        list(vec![sym("xy"), num(10, 1), num(20, 1)]),
        list(vec![sym("xy"), num(30, 1), num(40, 1)]),
    ]);
    let pts = Points::try_from(&e).unwrap();
    assert_eq!(pts.points.len(), 2);
    assert_eq!(pts.points[0].x, 1_000_000);
    assert_eq!(pts.points[0].y, 2_000_000);
    assert_eq!(pts.points[1].x, 3_000_000);
    assert_eq!(pts.points[1].y, 4_000_000);
}

#[test]
fn empty_point_list() {
    let pts = Points::try_from(&list(vec![sym("pts")])).unwrap();
    assert!(pts.points.is_empty());
}

#[test]
fn point_list_stops_at_other_element() {
    let e = list(vec![sym("pts"), list(vec![sym("xy"), num(1, 0), num(2, 0)]), list(vec![sym("at"), num(1, 0)])]);
    assert!(matches!(Points::try_from(&e), Err(ParseError::ExpectedNil(_))));
}

#[test]
fn millimetres_truncate_toward_zero() {
    assert_eq!(mm_to_nm(Decimal::new(15, 1)), 1_500_000);
    assert_eq!(mm_to_nm(Decimal::new(15, 7)), 1);
    assert_eq!(mm_to_nm(Decimal::new(-15, 7)), -1);
    assert_eq!(mm_to_nm(Decimal::new(254, 2)), 2_540_000);
    assert_eq!(mm_to_nm(Decimal::new(i64::MAX, 0)), i64::MAX);
    assert_eq!(mm_to_nm(Decimal::new(5, 40)), 0);
    assert_eq!(mm_to_unsigned_nm(Decimal::new(-1, 0)), None);
    assert_eq!(mm_to_unsigned_nm(Decimal::new(2, 0)), Some(2_000_000));
}

#[test]
fn millimetre_round_trip_is_exact_in_nanometres() {
    let d = Decimal::new(123_456_789, 8);
    let nm = mm_to_nm(d);
    assert_eq!(nm, 1_234_567);
    let back = nm_to_mm(nm);
    assert_eq!(back, Decimal::new(1_234_567, 6));
    assert_eq!(mm_to_nm(back), nm);
}

#[test]
fn reordered_position_values_are_refused() {
    let e = list(vec![sym("at"), text("1"), num(2, 0)]);
    assert_eq!(Position::try_from(&e), Err(ParseError::ExpectedFloat(text("1"))));
}

#[test]
fn pin_with_exchanged_type_and_style_is_refused() {
    let mut items = pin_items(true);
    items.swap(1, 2);
    let err = SymbolPin::try_from(&list(items)).unwrap_err();
    assert!(matches!(err, ParseError::ExpectedEnumSymbol(v, _) if v == sym("line")));
}

#[test]
fn pin_decodes() {
    let pin = SymbolPin::try_from(&list(pin_items(true))).unwrap();
    assert_eq!(pin.electrical_type, SymbolPinElectricalType::Passive);
    assert_eq!(pin.graphical_style, SymbolPinGraphicalStyle::Line);
    assert_eq!(pin.position.y, 3_810_000);
    assert_eq!(pin.length, 1_270_000);
    assert_eq!(pin.name.name, "~");
    assert_eq!(pin.number.number, "1");
}

#[test]
fn pin_without_number_is_missing_a_field() {
    let e = list(pin_items(false));
    assert_eq!(SymbolPin::try_from(&e), Err(ParseError::MissingField("pin", "number", list(pin_items(false)))));
}

#[test]
fn symbol_keyed_order_does_not_matter() {
    let a = list(vec![sym("symbol"), text("X"), list(vec![sym("in_bom"), sym("yes")]), list(vec![sym("on_board"), sym("no")])]);
    let b = list(vec![sym("symbol"), text("X"), list(vec![sym("on_board"), sym("no")]), list(vec![sym("in_bom"), sym("yes")])]);
    let sa = Symbol::try_from(&a).unwrap();
    let sb = Symbol::try_from(&b).unwrap();
    assert_eq!(sa, sb);
    assert_eq!(sa.in_bom, Some(true));
    assert_eq!(sa.on_board, Some(false));
    assert_eq!(sa.id, "X");
}

#[test]
fn duplicate_singular_field_is_refused() {
    let e = list(vec![sym("symbol"), text("X"), list(vec![sym("in_bom"), sym("yes")]), list(vec![sym("in_bom"), sym("no")])]);
    let err = Symbol::try_from(&e).unwrap_err();
    assert_eq!(err, ParseError::DuplicateField("symbol", "in_bom", list(vec![sym("in_bom"), sym("no")])));
}

#[test]
fn unknown_key_is_refused() {
    let bogus = list(vec![sym("bogus_field"), num(1, 0)]);
    let e = list(vec![sym("symbol"), text("X"), list(vec![sym("bogus_field"), num(1, 0)])]);
    assert_eq!(Symbol::try_from(&e), Err(ParseError::Unexpected(bogus)));
}

#[test]
fn symbol_with_pins_and_properties() {
    let e = list(vec![
        sym("symbol"),
        text("Device:R"),
        list(vec![sym("pin_numbers"), sym("hide")]),
        list(vec![sym("pin_names"), list(vec![sym("offset"), num(0, 0)]), sym("hide")]),
        list(vec![sym("property"), text("Reference"), text("R"), list(vec![sym("id"), num(0, 0)])]),
        list(pin_items(true)),
        list(pin_items(true)),
    ]);
    let s = Symbol::try_from(&e).unwrap();
    assert_eq!(s.pin_numbers, SymbolPinNumberDefaults { hide: true });
    assert_eq!(s.pin_names, SymbolPinNameDefaults { offset: 0, hide: true });
    assert!(!s.pin_numbers.is_default());
    assert_eq!(s.properties.len(), 1);
    assert_eq!(s.properties[0].key, "Reference");
    assert_eq!(s.properties[0].identifier, Some(0));
    assert_eq!(s.pins.len(), 2);
}

#[test]
fn integer_fields_must_be_integral() {
    let prop = |n: SExpr| list(vec![sym("property"), text("k"), text("v"), list(vec![sym("id"), n])]);
    let p = kanga_kicad::SymbolProperty::try_from(&prop(num(30, 1))).unwrap();
    assert_eq!(p.identifier, Some(3));
    let err = kanga_kicad::SymbolProperty::try_from(&prop(num(35, 1))).unwrap_err();
    assert_eq!(err, ParseError::ExpectedInt(num(35, 1)));
}

#[test]
fn size_reads_height_first_and_refuses_negative() {
    let s = Size::try_from(&list(vec![sym("size"), num(1, 0), num(2, 0)])).unwrap();
    assert_eq!(s, Size::new(2_000_000, 1_000_000));
    let err = Size::try_from(&list(vec![sym("size"), num(1, 0), num(-2, 0)])).unwrap_err();
    assert_eq!(err, ParseError::InvalidWidth(Decimal::new(-2, 0)));
    let err = Size::from_mm(Decimal::new(1, 0), Decimal::new(-1, 0)).unwrap_err();
    assert_eq!(err, ParseError::InvalidHeight(Decimal::new(-1, 0)));
}

#[test]
fn paper_sizes() {
    let p = Paper::try_from(&list(vec![sym("paper"), text("A4")])).unwrap();
    assert_eq!(p.paper_size, PaperSize::IsoA4);
    assert!(p.orientation.is_landscape());
    let p = Paper::try_from(&list(vec![sym("paper"), text("A"), sym("portrait")])).unwrap();
    assert_eq!(p.paper_size, PaperSize::AnsiA);
    assert!(p.orientation.is_portrait());
    assert_eq!(p.orientation, PaperOrientation::Portrait);
    let p = Paper::try_from(&list(vec![sym("paper"), text("User"), num(100, 0), num(200, 0)])).unwrap();
    assert_eq!(p.paper_size, PaperSize::User(Size::new(200_000_000, 100_000_000)));
    let err = Paper::try_from(&list(vec![sym("paper"), text("A9")])).unwrap_err();
    assert_eq!(err, ParseError::InvalidPaperSize("A9".to_string()));
}

#[test]
fn font_requires_size() {
    let e = list(vec![sym("font"), sym("bold")]);
    assert_eq!(Font::try_from(&e), Err(ParseError::MissingField("font", "size", list(vec![sym("font"), sym("bold")]))));
    let e = list(vec![
        sym("font"),
        sym("italic"),
        list(vec![sym("thickness"), num(254, 3)]),
        list(vec![sym("size"), num(127, 2), num(127, 2)]),
        list(vec![sym("face"), text("KiCad Font")]),
    ]);
    let f = Font::try_from(&e).unwrap();
    assert_eq!(f.face, Some("KiCad Font".to_string()));
    assert_eq!(f.thickness, Some(254_000));
    assert!(f.italic);
    assert!(!f.bold);
    assert_eq!(f.size, Size::new(1_270_000, 1_270_000));
}

#[test]
fn effects_and_justification() {
    let e = list(vec![sym("effects"), list(vec![sym("justify"), sym("left"), sym("bottom")]), sym("hide")]);
    let t = TextEffects::try_from(&e).unwrap();
    assert!(t.hide);
    assert!(t.font.is_none());
    let j = t.justify.unwrap();
    assert_eq!(j.horiz_justify, HorizJustify::Left);
    assert_eq!(j.vert_justify, VertJustify::Bottom);
    assert!(!j.horiz_justify.is_default());
    assert!(!j.mirror);
    let j = TextJustify::try_from(&list(vec![sym("justify"), sym("mirror")])).unwrap();
    assert!(j.horiz_justify.is_default() && j.vert_justify.is_default() && j.mirror);
    let err = TextJustify::try_from(&list(vec![sym("justify"), sym("sideways")])).unwrap_err();
    assert_eq!(err, ParseError::Unexpected(sym("sideways")));
}

#[test]
fn stroke_and_fill() {
    let e = list(vec![
        sym("stroke"),
        list(vec![sym("type"), sym("dash_dot")]),
        list(vec![sym("width"), num(15, 2)]),
    ]);
    let s = Stroke::try_from(&e).unwrap();
    assert_eq!(s.width, Some(150_000));
    assert_eq!(s.line_style, Some(LineStyle::DashDot));
    assert!(s.color.is_none());
    let f = Fill::try_from(&list(vec![sym("fill"), list(vec![sym("type"), sym("background")])])).unwrap();
    assert_eq!(f.fill_type, FillType::Background);
    let f = Fill::try_from(&list(vec![sym("fill")])).unwrap();
    assert_eq!(f.fill_type, FillType::NoFill);
    let err = LineStyle::try_from(&list(vec![sym("type"), sym("wavy")])).unwrap_err();
    assert!(matches!(err, ParseError::ExpectedEnumSymbol(v, _) if v == sym("wavy")));
}

#[test]
fn title_block_comments() {
    let e = list(vec![
        sym("title_block"),
        list(vec![sym("comment"), num(1, 0), text("first")]),
        list(vec![sym("title"), text("Board")]),
        list(vec![sym("comment"), num(2, 0), text("second")]),
        list(vec![sym("comment"), num(1, 0), text("again")]),
    ]);
    let t = TitleBlock::try_from(&e).unwrap();
    assert_eq!(t.title, "Board");
    assert_eq!(t.date, "");
    assert_eq!(t.comments.len(), 2);
    assert_eq!(t.comments.get(&1).map(|s| s.as_str()), Some("again"));
    assert_eq!(t.comments.get(&2).map(|s| s.as_str()), Some("second"));
}

#[test]
fn truth_values() {
    for (word, value) in [("yes", true), ("t", true), ("no", false), ("f", false)] {
        let e = list(vec![sym("symbol"), text("X"), list(vec![sym("in_bom"), sym(word)])]);
        assert_eq!(Symbol::try_from(&e).unwrap().in_bom, Some(value));
    }
    let e = list(vec![sym("symbol"), text("X"), list(vec![sym("in_bom"), SExpr::boolean(true)])]);
    assert_eq!(Symbol::try_from(&e).unwrap().in_bom, Some(true));
    let e = list(vec![sym("symbol"), text("X"), list(vec![sym("in_bom"), sym("maybe")])]);
    assert_eq!(Symbol::try_from(&e), Err(ParseError::Unexpected(sym("maybe"))));
}

#[test]
fn wrong_head_is_named() {
    let e = list(vec![sym("colour"), num(1, 0), num(1, 0), num(1, 0)]);
    assert_eq!(Color::try_from(&e), Err(ParseError::ExpectedNamedSym(sym("colour"), "color")));
    assert_eq!(Color::try_from(&sym("color")), Err(ParseError::ExpectedList(sym("color"))));
}

#[test]
fn decimal_text() {
    assert_eq!(Decimal::parse("0.1"), Some(Decimal::new(1, 1)));
    assert_eq!(Decimal::parse("-12.345"), Some(Decimal::new(-12345, 3)));
    assert_eq!(Decimal::parse("42"), Some(Decimal::new(42, 0)));
    assert_eq!(Decimal::parse("-9223372036854775808"), Some(Decimal::new(i64::MIN, 0)));
    assert_eq!(Decimal::parse("9223372036854775808"), None);
    assert_eq!(Decimal::parse("99999999999999999999"), None);
    assert_eq!(Decimal::parse(""), None);
    assert_eq!(Decimal::parse("-"), None);
    assert_eq!(Decimal::parse("1."), None);
    assert_eq!(Decimal::parse(".5"), None);
    assert_eq!(Decimal::parse("1.2.3"), None);
    assert_eq!(Decimal::parse("1e5"), None);
    assert_eq!(Decimal::parse("inf"), None);
}

#[test]
fn pin_without_position_names_the_field() {
    let mut items = pin_items(true);
    items.remove(3);
    let e = list(items);
    let expected = ParseError::MissingField("pin", "position", list({
        let mut v = pin_items(true);
        v.remove(3);
        v
    }));
    assert_eq!(SymbolPin::try_from(&e), Err(expected));
}

fn arc_parts() -> Vec<SExpr> {
    vec![
        list(vec![sym("start"), num(0, 0), num(1, 0)]),
        list(vec![sym("mid"), num(1, 0), num(1, 0)]),
        list(vec![sym("end"), num(1, 0), num(0, 0)]),
        list(vec![sym("stroke"), list(vec![sym("width"), num(0, 0)])]),
        list(vec![sym("fill"), list(vec![sym("type"), sym("none")])]),
    ]
}

#[test]
fn arc_reports_first_missing_field_in_declaration_order() {
    let parts = arc_parts();
    let mut items = vec![sym("arc")];
    items.push(parts[4].copy());
    items.push(parts[0].copy());
    items.push(parts[3].copy());
    let e = list(items);
    let err = kanga_kicad::SymbolGraphicArc::try_from(&e).unwrap_err();
    assert!(matches!(err, ParseError::MissingField("arc", "mid", _)));
}

#[test]
fn arc_refuses_repeated_field() {
    let parts = arc_parts();
    let mut items = vec![sym("arc")];
    for p in &parts {
        items.push(p.copy());
    }
    items.push(list(vec![sym("start"), num(5, 0), num(5, 0)]));
    let err = kanga_kicad::SymbolGraphicArc::try_from(&list(items)).unwrap_err();
    assert_eq!(err, ParseError::DuplicateField("arc", "start", list(vec![sym("start"), num(5, 0), num(5, 0)])));
}
